//! Block devices: network block devices that expose disk images, and
//! device-mapper devices, with the names and nodes by which they are reached.
use vstd::prelude::*;

use rand::distributions::Alphanumeric;
use rand::Rng;

use crate::text::{append_chars, chars_of, decimal, decimal_exec, string_of};

verus! {

/// `std::path::Path::exists`: whether the file system has an entry at `p` (it
/// follows symbolic links). The answer depends on the disk at the time of the
/// call, so nothing is stated of it.
#[verifier::external_body]
pub(crate) fn path_exists(p: &str) -> bool {
    std::path::Path::new(p).exists()
}

// ---------------------------------------------------------------------------
// Network block devices
// ---------------------------------------------------------------------------

/// The number of a network block device, `n` in `/dev/nbd<n>`.
#[derive(Debug)]
pub struct NbdDeviceNumber(pub u16);

/// The device node of network block device `n`.
pub open spec fn nbd_path(n: u16) -> Seq<char> {
    "/dev/nbd"@ + decimal(n as nat)
}

/// The glob pattern of the files naming the device-mapper devices that hold a
/// partition of network block device `n`.
pub open spec fn nbd_holders_pattern(n: u16) -> Seq<char> {
    "/sys/block/nbd"@ + decimal(n as nat) + "/nbd"@ + decimal(n as nat) + "p*/holders/*/dm/name"@
}

impl NbdDeviceNumber {
    /// The device node of this network block device.
    pub fn to_path(&self) -> (r: String)
        ensures
            r@ == nbd_path(self.0),
    {
        let mut p = chars_of("/dev/nbd");
        let d = decimal_exec(self.0 as u64);
        append_chars(&mut p, &d);
        string_of(&p)
    }
}

/// A disk image connected to a network block device.
#[derive(Debug)]
pub struct NbdDevice {
    pub nbd_dev_num: NbdDeviceNumber,
}

impl NbdDevice {
    /// Whether the kernel module of network block devices is loaded, seen by
    /// whether `/dev/nbd0` exists.
    pub fn is_module_loaded() -> bool {
        path_exists("/dev/nbd0")
    }

    /// The device node of the network block device.
    pub fn to_path(&self) -> (r: String)
        ensures
            r@ == nbd_path(self.nbd_dev_num.0),
    {
        self.nbd_dev_num.to_path()
    }

    /// The glob pattern of the files naming the device-mapper devices that
    /// hold a partition of this device.
    pub fn holders_pattern(&self) -> (r: String)
        ensures
            r@ == nbd_holders_pattern(self.nbd_dev_num.0),
    {
        let d = decimal_exec(self.nbd_dev_num.0 as u64);
        let mut p = chars_of("/sys/block/nbd");
        append_chars(&mut p, &d);
        let q = chars_of("/nbd");
        append_chars(&mut p, &q);
        append_chars(&mut p, &d);
        let s = chars_of("p*/holders/*/dm/name");
        append_chars(&mut p, &s);
        string_of(&p)
    }
}

/// The highest number of a network block device that is looked at when one
/// is chosen.
pub const NBD_MAX_DEVICE_NUMBER: u16 = 99;

/// Where the choice of a free network block device stands.
#[derive(Debug, Clone, Copy, PartialEq, Eq, Structural)]
pub enum NbdScanStage {
    /// Nothing asked yet.
    Start,
    /// Waiting to learn whether the kernel module is loaded.
    AwaitModule,
    /// Waiting for `modprobe nbd max_part=8`.
    AwaitModprobe,
    /// Waiting for the size of the device at hand.
    AwaitProbe,
    /// The choice is made, or failed.
    Done,
}

/// Why no network block device could be chosen.
#[derive(Debug, Clone, Copy, PartialEq, Eq, Structural)]
pub enum NbdScanError {
    /// The kernel module could not be loaded.
    ModprobeFailed,
    /// No device from `/dev/nbd0` to `/dev/nbd99` is free.
    NoneAvailable,
}

/// What came of the action last asked for.
#[derive(Debug, Clone, Copy, PartialEq, Eq, Structural)]
pub enum NbdScanEvent {
    /// The choice begins.
    Started,
    /// Whether the kernel module is loaded (`NbdDevice::is_module_loaded`).
    ModuleLoaded(bool),
    /// Whether `modprobe` succeeded.
    Modprobed(bool),
    /// The size in bytes of the device at hand, or `None` where it does not
    /// exist or cannot be opened or sized.
    Probed(Option<u64>),
}

/// What the caller is to do next.
#[derive(Debug)]
pub enum NbdScanAction {
    /// Find out whether the kernel module is loaded.
    CheckModule,
    /// Load the kernel module with `modprobe nbd max_part=8`.
    Modprobe,
    /// Find out the size of this device.
    Probe(NbdDeviceNumber),
    /// This device is free: it has size zero.
    Chosen(NbdDeviceNumber),
    /// The choice failed.
    Failed(NbdScanError),
    /// The event does not belong to the current stage; nothing changes.
    Ignore,
}

/// An `NbdScanAction` with each device by its number.
pub enum NbdScanActionView {
    CheckModule,
    Modprobe,
    Probe(u16),
    Chosen(u16),
    Failed(NbdScanError),
    Ignore,
}

impl View for NbdScanAction {
    type V = NbdScanActionView;

    open spec fn view(&self) -> NbdScanActionView {
        match self {
            NbdScanAction::CheckModule => NbdScanActionView::CheckModule,
            NbdScanAction::Modprobe => NbdScanActionView::Modprobe,
            NbdScanAction::Probe(n) => NbdScanActionView::Probe(n.0),
            NbdScanAction::Chosen(n) => NbdScanActionView::Chosen(n.0),
            NbdScanAction::Failed(e) => NbdScanActionView::Failed(*e),
            NbdScanAction::Ignore => NbdScanActionView::Ignore,
        }
    }
}

/// The choice state: its stage and the number of the device at hand.
pub type NbdScanModel = (NbdScanStage, u16);

/// Going on with device `n`, or failing past the last one.
pub open spec fn probe_step(n: int) -> (NbdScanModel, NbdScanActionView) {
    if n <= NBD_MAX_DEVICE_NUMBER {
        ((NbdScanStage::AwaitProbe, n as u16), NbdScanActionView::Probe(n as u16))
    } else {
        ((NbdScanStage::Done, NBD_MAX_DEVICE_NUMBER), NbdScanActionView::Failed(NbdScanError::NoneAvailable))
    }
}

/// One step of the choice of a free network block device: the kernel module
/// is loaded where it is not yet, then `/dev/nbd0` to `/dev/nbd99` are looked
/// at in turn, and the first of size zero is chosen. A device that does not
/// exist, or cannot be opened or sized, is passed over. An event that does
/// not belong to the stage changes nothing.
pub open spec fn nbd_scan_step(m: NbdScanModel, ev: NbdScanEvent) -> (NbdScanModel, NbdScanActionView) {
    let (stage, n) = m;
    match (stage, ev) {
        (NbdScanStage::Start, NbdScanEvent::Started) => (
            (NbdScanStage::AwaitModule, n),
            NbdScanActionView::CheckModule,
        ),
        (NbdScanStage::AwaitModule, NbdScanEvent::ModuleLoaded(b)) => if b {
            probe_step(0)
        } else {
            ((NbdScanStage::AwaitModprobe, n), NbdScanActionView::Modprobe)
        },
        (NbdScanStage::AwaitModprobe, NbdScanEvent::Modprobed(ok)) => if ok {
            probe_step(0)
        } else {
            ((NbdScanStage::Done, n), NbdScanActionView::Failed(NbdScanError::ModprobeFailed))
        },
        (NbdScanStage::AwaitProbe, NbdScanEvent::Probed(size)) => if size == Some(0u64) {
            ((NbdScanStage::Done, n), NbdScanActionView::Chosen(n))
        } else {
            probe_step(n + 1)
        },
        _ => (m, NbdScanActionView::Ignore),
    }
}

/// The choice of a free network block device, driven by `step`.
#[derive(Debug)]
pub struct NbdScan {
    stage: NbdScanStage,
    next: u16,
}

impl View for NbdScan {
    type V = NbdScanModel;

    closed spec fn view(&self) -> NbdScanModel {
        (self.stage, self.next)
    }
}

/// A device chosen, or asked about, in a state whose number is in range is
/// one of `/dev/nbd0` to `/dev/nbd99`, and it is the device at hand.
pub proof fn lemma_nbd_scan_in_range(m: NbdScanModel, ev: NbdScanEvent)
    requires
        m.1 <= NBD_MAX_DEVICE_NUMBER,
    ensures
        nbd_scan_step(m, ev).0.1 <= NBD_MAX_DEVICE_NUMBER,
        nbd_scan_step(m, ev).1 matches NbdScanActionView::Chosen(n) ==> n == m.1 && n
            <= NBD_MAX_DEVICE_NUMBER,
        nbd_scan_step(m, ev).1 matches NbdScanActionView::Probe(n) ==> n
            <= NBD_MAX_DEVICE_NUMBER && n == nbd_scan_step(m, ev).0.1,
{
}

impl NbdScan {
    #[verifier::type_invariant]
    spec fn well_formed(self) -> bool {
        self.next <= NBD_MAX_DEVICE_NUMBER
    }

    /// A choice that has not begun.
    pub fn new() -> (r: NbdScan)
        ensures
            r@ == (NbdScanStage::Start, 0u16),
    {
        NbdScan { stage: NbdScanStage::Start, next: 0 }
    }

    /// Goes on with device `n`, or fails past the last one.
    fn go_to(&mut self, n: u16) -> (r: NbdScanAction)
        requires
            n <= NBD_MAX_DEVICE_NUMBER + 1,
        ensures
            (final(self)@, r@) == probe_step(n as int),
    {
        if n <= NBD_MAX_DEVICE_NUMBER {
            self.next = n;
            self.stage = NbdScanStage::AwaitProbe;
            NbdScanAction::Probe(NbdDeviceNumber(n))
        } else {
            self.next = NBD_MAX_DEVICE_NUMBER;
            self.stage = NbdScanStage::Done;
            NbdScanAction::Failed(NbdScanError::NoneAvailable)
        }
    }

    /// Takes in what came of the last action and says what to do next.
    pub fn step(&mut self, ev: NbdScanEvent) -> (r: NbdScanAction)
        ensures
            (final(self)@, r@) == nbd_scan_step(old(self)@, ev),
            r@ matches NbdScanActionView::Chosen(n) ==> n <= NBD_MAX_DEVICE_NUMBER,
    {
        proof {
            use_type_invariant(&*self);
        }
        match ev {
            NbdScanEvent::Started => {
                if self.stage == NbdScanStage::Start {
                    self.stage = NbdScanStage::AwaitModule;
                    return NbdScanAction::CheckModule;
                }
            },
            NbdScanEvent::ModuleLoaded(b) => {
                if self.stage == NbdScanStage::AwaitModule {
                    if b {
                        return self.go_to(0);
                    }
                    self.stage = NbdScanStage::AwaitModprobe;
                    return NbdScanAction::Modprobe;
                }
            },
            NbdScanEvent::Modprobed(ok) => {
                if self.stage == NbdScanStage::AwaitModprobe {
                    if ok {
                        return self.go_to(0);
                    }
                    self.stage = NbdScanStage::Done;
                    return NbdScanAction::Failed(NbdScanError::ModprobeFailed);
                }
            },
            NbdScanEvent::Probed(size) => {
                if self.stage == NbdScanStage::AwaitProbe {
                    if size == Some(0u64) {
                        self.stage = NbdScanStage::Done;
                        return NbdScanAction::Chosen(NbdDeviceNumber(self.next));
                    }
                    let n = self.next + 1;
                    return self.go_to(n);
                }
            },
        }
        NbdScanAction::Ignore
    }
}

/// The arguments of `qemu-nbd` that connect a disk image to device `n`.
pub open spec fn spec_nbd_connect_args(n: u16, disk_img: Seq<char>) -> Seq<Seq<char>> {
    seq!["--connect"@, nbd_path(n), "--discard=on"@, "--detect-zeroes=unmap"@, disk_img]
}

impl NbdDeviceNumber {
    /// The arguments of `qemu-nbd` that connect the disk image to this device.
    pub fn connect_args(&self, disk_img: &str) -> (r: Vec<String>)
        ensures
            r@.map_values(|s: String| s@) == spec_nbd_connect_args(self.0, disk_img@),
    {
        let r = vec![
            "--connect".to_owned(),
            self.to_path(),
            "--discard=on".to_owned(),
            "--detect-zeroes=unmap".to_owned(),
            disk_img.to_owned(),
        ];
        assert(r@.map_values(|s: String| s@) =~= spec_nbd_connect_args(self.0, disk_img@));
        r
    }
}

/// The device to which a disk image is connected is the one whose node the
/// connected device gives, on every call: `/dev/nbd<n>`.
pub proof fn lemma_nbd_connect_device(d: NbdDevice, disk_img: Seq<char>)
    ensures
        spec_nbd_connect_args(d.nbd_dev_num.0, disk_img)[1] == nbd_path(d.nbd_dev_num.0),
{
}

// ---------------------------------------------------------------------------
// Device-mapper devices
// ---------------------------------------------------------------------------

/// An ASCII letter or digit.
pub open spec fn is_ascii_alphanumeric(c: char) -> bool {
    ||| (48 <= (c as int) && (c as int) <= 57)
    ||| (65 <= (c as int) && (c as int) <= 90)
    ||| (97 <= (c as int) && (c as int) <= 122)
}

/// `n` characters sampled by `rand` from `rand::distributions::Alphanumeric`
/// with the thread-local generator: each is an ASCII letter or digit. Which
/// ones come out is chance, so nothing more is stated.
#[verifier::external_body]
fn random_alphanumeric(n: usize) -> (r: String)
    ensures
        r@.len() == n,
        forall|i: int| 0 <= i < n ==> is_ascii_alphanumeric(#[trigger] r@[i]),
{
    rand::thread_rng().sample_iter(&Alphanumeric).take(n).map(char::from).collect()
}

/// A device-mapper device, reached under `/dev/mapper/`.
#[derive(Debug)]
pub struct DeviceMapperDevice {
    pub device_name: String,
}

/// A name for a new device-mapper device: `cryptpilot-` and then sixteen
/// ASCII letters and digits.
pub open spec fn is_generated_device_name(name: Seq<char>) -> bool {
    &&& name.len() == 27
    &&& name.take(11) == "cryptpilot-"@
    &&& forall|i: int| 11 <= i < 27 ==> is_ascii_alphanumeric(#[trigger] name[i])
}

impl DeviceMapperDevice {
    /// A fresh random name for a device-mapper device.
    pub fn random_device_name() -> (r: String)
        ensures
            is_generated_device_name(r@),
    {
        let random_part = random_alphanumeric(16);
        let mut p = chars_of("cryptpilot-");
        let q = chars_of(random_part.as_str());
        append_chars(&mut p, &q);
        proof {
            reveal_strlit("cryptpilot-");
            assert(p@.take(11) =~= "cryptpilot-"@);
            assert forall|i: int| 11 <= i < 27 implies is_ascii_alphanumeric(#[trigger] p@[i]) by {
                assert(p@[i] == random_part@[i - 11]);
            }
        }
        string_of(&p)
    }

    /// The device node of the device.
    pub fn path(&self) -> (r: String)
        ensures
            r@ == "/dev/mapper/"@ + self.device_name@,
    {
        let mut p = chars_of("/dev/mapper/");
        let v = chars_of(self.device_name.as_str());
        append_chars(&mut p, &v);
        string_of(&p)
    }
}

} // verus!
