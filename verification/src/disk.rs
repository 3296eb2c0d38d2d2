//! Finding the partitions of a disk from what `lsblk` and `blkid` print.
use vstd::prelude::*;

use crate::text::{
    chars_of, is_whitespace, is_ws, lines, lines_exec, starts_with, starts_with_exec, string_of,
    trim, trim_chars, views,
};

verus! {

// ---------------------------------------------------------------------------
// Fields of a line
// ---------------------------------------------------------------------------

/// Keeps a finished field where it is not empty.
pub open spec fn keep_field(done: Seq<Seq<char>>, f: Seq<char>) -> Seq<Seq<char>> {
    if f.len() > 0 {
        done.push(f)
    } else {
        done
    }
}

/// Scans text left to right: the fields finished so far and the field being
/// read.
pub open spec fn field_scan(s: Seq<char>) -> (Seq<Seq<char>>, Seq<char>)
    decreases s.len(),
{
    if s.len() == 0 {
        (Seq::empty(), Seq::empty())
    } else {
        let p = field_scan(s.drop_last());
        if is_ws(s.last()) {
            (keep_field(p.0, p.1), Seq::empty())
        } else {
            (p.0, p.1.push(s.last()))
        }
    }
}

/// The fields of text (`str::split_whitespace`): the maximal runs of
/// characters that are not white space.
pub open spec fn split_whitespace(s: Seq<char>) -> Seq<Seq<char>> {
    keep_field(field_scan(s).0, field_scan(s).1)
}

/// The fields of text, split at white space.
pub fn split_whitespace_exec(s: &[char]) -> (r: Vec<Vec<char>>)
    ensures
        views(r@) == split_whitespace(s@),
{
    let mut done: Vec<Vec<char>> = Vec::new();
    let mut cur: Vec<char> = Vec::new();
    let mut i: usize = 0;
    while i < s.len()
        invariant
            i <= s@.len(),
            views(done@) == field_scan(s@.take(i as int)).0,
            cur@ == field_scan(s@.take(i as int)).1,
        decreases s.len() - i,
    {
        assert(s@.take(i + 1).drop_last() =~= s@.take(i as int));
        let ghost d0 = done@;
        if is_whitespace(s[i]) {
            if cur.len() > 0 {
                done.push(cur);
                assert(views(done@) =~= views(d0).push(field_scan(s@.take(i as int)).1));
            }
            cur = Vec::new();
        } else {
            cur.push(s[i]);
        }
        i += 1;
    }
    assert(s@.take(s@.len() as int) =~= s@);
    let ghost d0 = done@;
    if cur.len() > 0 {
        done.push(cur);
        assert(views(done@) =~= views(d0).push(field_scan(s@).1));
    }
    done
}

// ---------------------------------------------------------------------------
// lsblk and blkid output
// ---------------------------------------------------------------------------

/// The devices of `lsblk -lnpo NAME,FSTYPE` output that have a file system:
/// the first field of each line with exactly two fields.
pub open spec fn fs_devices(ls: Seq<Seq<char>>) -> Seq<Seq<char>>
    decreases ls.len(),
{
    if ls.len() == 0 {
        Seq::empty()
    } else {
        let fs = split_whitespace(ls.last());
        if fs.len() == 2 {
            fs_devices(ls.drop_last()).push(fs[0])
        } else {
            fs_devices(ls.drop_last())
        }
    }
}

/// The devices listed by `lsblk -lnpo NAME,FSTYPE` that have a file system,
/// in the order listed.
pub fn lsblk_fs_devices(output: &str) -> (r: Vec<String>)
    ensures
        r@.map_values(|s: String| s@) == fs_devices(lines(output@)),
{
    let o = chars_of(output);
    let ls = lines_exec(&o);
    let ghost lv = views(ls@);
    let mut out: Vec<String> = Vec::new();
    let mut i: usize = 0;
    while i < ls.len()
        invariant
            i <= ls@.len(),
            lv == views(ls@),
            lv == lines(output@),
            out@.map_values(|s: String| s@) == fs_devices(lv.take(i as int)),
        decreases ls.len() - i,
    {
        assert(lv.take(i + 1).drop_last() =~= lv.take(i as int));
        let fields = split_whitespace_exec(&ls[i]);
        if fields.len() == 2 {
            let ghost o0 = out@;
            out.push(string_of(&fields[0]));
            assert(out@.map_values(|s: String| s@) =~= o0.map_values(|s: String| s@).push(
                fields@[0]@,
            ));
        }
        i += 1;
    }
    assert(lv.take(lv.len() as int) =~= lv);
    out
}

/// The device that `blkid --list-one --output device` printed: its output
/// trimmed, where that is not empty.
pub open spec fn spec_blkid_device(stdout: Seq<char>) -> Option<Seq<char>> {
    if trim(stdout).len() > 0 {
        Some(trim(stdout))
    } else {
        None
    }
}

/// The device that `blkid --list-one --output device` printed, if any.
pub fn blkid_device(stdout: &str) -> (r: Option<String>)
    ensures
        match spec_blkid_device(stdout@) {
            Some(d) => r matches Some(s) && s@ == d,
            None => r is None,
        },
{
    let s = chars_of(stdout);
    let t = trim_chars(&s);
    if t.len() > 0 {
        Some(string_of(&t))
    } else {
        None
    }
}

/// Whether a file name is that of a kernel image (it begins with `vmlinuz`),
/// the sign of a boot partition.
pub fn is_kernel_image_name(name: &str) -> (r: bool)
    ensures
        r == starts_with(name@, "vmlinuz"@),
{
    let n = chars_of(name);
    let v = chars_of("vmlinuz");
    starts_with_exec(&n, &v)
}

/// Whether `char::is_numeric` holds of a character (the Unicode general
/// categories Nd, Nl and No).
pub uninterp spec fn is_numeric(c: char) -> bool;

/// `char::is_numeric`.
#[verifier::external_body]
fn char_is_numeric(c: char) -> (r: bool)
    ensures
        r == is_numeric(c),
{
    c.is_numeric()
}

/// The partitions among the devices of `lsblk -lnpo NAME` output: the lines
/// whose last character is numeric.
pub open spec fn partition_lines(ls: Seq<Seq<char>>) -> Seq<Seq<char>>
    decreases ls.len(),
{
    if ls.len() == 0 {
        Seq::empty()
    } else {
        let l = ls.last();
        if l.len() > 0 && is_numeric(l.last()) {
            partition_lines(ls.drop_last()).push(l)
        } else {
            partition_lines(ls.drop_last())
        }
    }
}

/// The partitions listed by `lsblk -lnpo NAME`, in the order listed.
pub fn lsblk_partitions(output: &str) -> (r: Vec<String>)
    ensures
        r@.map_values(|s: String| s@) == partition_lines(lines(output@)),
{
    let o = chars_of(output);
    let ls = lines_exec(&o);
    let ghost lv = views(ls@);
    let mut out: Vec<String> = Vec::new();
    let mut i: usize = 0;
    while i < ls.len()
        invariant
            i <= ls@.len(),
            lv == views(ls@),
            lv == lines(output@),
            out@.map_values(|s: String| s@) == partition_lines(lv.take(i as int)),
        decreases ls.len() - i,
    {
        assert(lv.take(i + 1).drop_last() =~= lv.take(i as int));
        let l = &ls[i];
        if l.len() > 0 && char_is_numeric(l[l.len() - 1]) {
            let ghost o0 = out@;
            out.push(string_of(l));
            assert(out@.map_values(|s: String| s@) =~= o0.map_values(|s: String| s@).push(l@));
        }
        i += 1;
    }
    assert(lv.take(lv.len() as int) =~= lv);
    out
}

// ---------------------------------------------------------------------------
// Finding the boot partition of a disk
// ---------------------------------------------------------------------------

/// Where the search for the boot partition of a disk stands.
#[derive(Debug, Clone, Copy, PartialEq, Eq, Structural)]
pub enum BootPartStage {
    /// Nothing asked yet.
    Start,
    /// Waiting for `mountpoint /boot` to say whether `/boot` is a mount point.
    AwaitBootMountpoint,
    /// Waiting for `findmnt -n -o SOURCE /boot` to name the device of `/boot`.
    AwaitBootSource,
    /// Waiting for `blkid` to name the ext4 partition labelled `boot`.
    AwaitBlkid,
    /// Waiting for `lsblk -lnpo NAME,FSTYPE` to list the devices.
    AwaitLsblk,
    /// Waiting for `findmnt` to say whether the current candidate is mounted.
    AwaitMounted,
    /// Waiting for the names at the root of the current candidate.
    AwaitListing,
    /// The search is over.
    Done,
}

/// Why no boot partition was found.
#[derive(Debug, Clone, Copy, PartialEq, Eq, Structural)]
pub enum BootPartError {
    /// `lsblk` failed.
    LsblkFailed,
    /// No partition labelled `boot`, and no unmounted device holding a kernel.
    NotFound,
}

/// What came of the action last asked for.
#[derive(Debug)]
pub enum BootPartEvent {
    /// The search begins.
    Started,
    /// Whether `mountpoint /boot` succeeded.
    BootMountpoint(bool),
    /// What `findmnt` printed of the source of `/boot`, or `None` where it failed.
    BootSource(Option<String>),
    /// What `blkid` printed, or `None` where it failed.
    Blkid(Option<String>),
    /// What `lsblk` printed, or `None` where it failed.
    Lsblk(Option<String>),
    /// Whether `findmnt` found the current candidate mounted.
    Mounted(bool),
    /// The names at the root of the current candidate once mounted, or `None`
    /// where it could not be mounted or read.
    Listed(Option<Vec<String>>),
}

/// What the caller is to do next.
#[derive(Debug, PartialEq, Eq)]
pub enum BootPartAction {
    /// Ask `mountpoint` whether `/boot` is a mount point.
    CheckBootMountpoint,
    /// Ask `findmnt -n -o SOURCE /boot` for the device mounted at `/boot`.
    FindBootSource,
    /// Ask `blkid` for the ext4 partition labelled `boot`, on this device, or
    /// on all devices where there is none.
    RunBlkid(Option<String>),
    /// List the devices with `lsblk -lnpo NAME,FSTYPE`.
    RunLsblk,
    /// Ask `findmnt` whether this device is mounted.
    CheckMounted(String),
    /// Mount this device and list the names at its root.
    ListRoot(String),
    /// The boot partition is this device.
    Found(String),
    /// The search failed.
    Failed(BootPartError),
    /// The event does not belong to the current stage; nothing changes.
    Ignore,
}

/// A `BootPartEvent` with its text as character sequences.
pub enum BootPartEventView {
    Started,
    BootMountpoint(bool),
    BootSource(Option<Seq<char>>),
    Blkid(Option<Seq<char>>),
    Lsblk(Option<Seq<char>>),
    Mounted(bool),
    Listed(Option<Seq<Seq<char>>>),
}

/// A `BootPartAction` with its text as character sequences.
pub enum BootPartActionView {
    CheckBootMountpoint,
    FindBootSource,
    RunBlkid(Option<Seq<char>>),
    RunLsblk,
    CheckMounted(Seq<char>),
    ListRoot(Seq<char>),
    Found(Seq<char>),
    Failed(BootPartError),
    Ignore,
}

impl View for BootPartEvent {
    type V = BootPartEventView;

    open spec fn view(&self) -> BootPartEventView {
        match self {
            BootPartEvent::Started => BootPartEventView::Started,
            BootPartEvent::BootMountpoint(b) => BootPartEventView::BootMountpoint(*b),
            BootPartEvent::BootSource(o) => BootPartEventView::BootSource(
                match o {
                    Some(s) => Some(s@),
                    None => None,
                },
            ),
            BootPartEvent::Blkid(o) => BootPartEventView::Blkid(
                match o {
                    Some(s) => Some(s@),
                    None => None,
                },
            ),
            BootPartEvent::Lsblk(o) => BootPartEventView::Lsblk(
                match o {
                    Some(s) => Some(s@),
                    None => None,
                },
            ),
            BootPartEvent::Mounted(b) => BootPartEventView::Mounted(*b),
            BootPartEvent::Listed(o) => BootPartEventView::Listed(
                match o {
                    Some(v) => Some(v@.map_values(|s: String| s@)),
                    None => None,
                },
            ),
        }
    }
}

impl View for BootPartAction {
    type V = BootPartActionView;

    open spec fn view(&self) -> BootPartActionView {
        match self {
            BootPartAction::CheckBootMountpoint => BootPartActionView::CheckBootMountpoint,
            BootPartAction::FindBootSource => BootPartActionView::FindBootSource,
            BootPartAction::RunBlkid(o) => BootPartActionView::RunBlkid(
                match o {
                    Some(s) => Some(s@),
                    None => None,
                },
            ),
            BootPartAction::RunLsblk => BootPartActionView::RunLsblk,
            BootPartAction::CheckMounted(s) => BootPartActionView::CheckMounted(s@),
            BootPartAction::ListRoot(s) => BootPartActionView::ListRoot(s@),
            BootPartAction::Found(s) => BootPartActionView::Found(s@),
            BootPartAction::Failed(e) => BootPartActionView::Failed(*e),
            BootPartAction::Ignore => BootPartActionView::Ignore,
        }
    }
}

/// Whether one of the names is that of a kernel image.
pub open spec fn has_kernel_image(names: Seq<Seq<char>>) -> bool {
    exists|i: int| 0 <= i < names.len() && starts_with(#[trigger] names[i], "vmlinuz"@)
}

/// The search state: its stage, the candidate devices, and the one at hand.
pub type BootPartModel = (BootPartStage, Seq<Seq<char>>, int);

/// Going on with the candidate at `i`: ask whether it is mounted, or fail
/// where no candidate is left.
pub open spec fn candidate_step(cands: Seq<Seq<char>>, i: int) -> (BootPartModel, BootPartActionView) {
    if 0 <= i < cands.len() {
        ((BootPartStage::AwaitMounted, cands, i), BootPartActionView::CheckMounted(cands[i]))
    } else {
        ((BootPartStage::Done, cands, i), BootPartActionView::Failed(BootPartError::NotFound))
    }
}

/// One step of the search for the boot partition, on the disk `hint` or,
/// where there is none, on the running system. Without a disk, where `/boot`
/// is a mount point, the device that `findmnt` names as its source (trimmed,
/// where not empty) is the answer. Else `blkid` is asked for the ext4
/// partition labelled `boot` (on the disk, or on all devices), and what it
/// prints (trimmed, where not empty) is the answer. Else `lsblk` lists the
/// devices with a file system, and each in turn that is not mounted already
/// is mounted and looked at: the first whose root holds a name beginning with
/// `vmlinuz` is the answer. An event that does not belong to the stage
/// changes nothing.
pub open spec fn boot_part_step(m: BootPartModel, hint: Option<Seq<char>>, ev: BootPartEventView) -> (
    BootPartModel,
    BootPartActionView,
) {
    let (stage, cands, next) = m;
    match (stage, ev) {
        (BootPartStage::Start, BootPartEventView::Started) => if hint is None {
            ((BootPartStage::AwaitBootMountpoint, cands, next), BootPartActionView::CheckBootMountpoint)
        } else {
            ((BootPartStage::AwaitBlkid, cands, next), BootPartActionView::RunBlkid(hint))
        },
        (BootPartStage::AwaitBootMountpoint, BootPartEventView::BootMountpoint(b)) => if b {
            ((BootPartStage::AwaitBootSource, cands, next), BootPartActionView::FindBootSource)
        } else {
            ((BootPartStage::AwaitBlkid, cands, next), BootPartActionView::RunBlkid(hint))
        },
        (BootPartStage::AwaitBootSource, BootPartEventView::BootSource(o)) => match o {
            Some(out) if spec_blkid_device(out) is Some => (
                (BootPartStage::Done, cands, next),
                BootPartActionView::Found(spec_blkid_device(out)->0),
            ),
            _ => ((BootPartStage::AwaitBlkid, cands, next), BootPartActionView::RunBlkid(hint)),
        },
        (BootPartStage::AwaitBlkid, BootPartEventView::Blkid(o)) => match o {
            Some(out) if spec_blkid_device(out) is Some => (
                (BootPartStage::Done, cands, next),
                BootPartActionView::Found(spec_blkid_device(out)->0),
            ),
            _ => ((BootPartStage::AwaitLsblk, cands, next), BootPartActionView::RunLsblk),
        },
        (BootPartStage::AwaitLsblk, BootPartEventView::Lsblk(o)) => match o {
            Some(out) => candidate_step(fs_devices(lines(out)), 0),
            None => (
                (BootPartStage::Done, cands, next),
                BootPartActionView::Failed(BootPartError::LsblkFailed),
            ),
        },
        (BootPartStage::AwaitMounted, BootPartEventView::Mounted(b)) => if b {
            candidate_step(cands, next + 1)
        } else {
            ((BootPartStage::AwaitListing, cands, next), BootPartActionView::ListRoot(cands[next]))
        },
        (BootPartStage::AwaitListing, BootPartEventView::Listed(o)) => match o {
            Some(names) if has_kernel_image(names) => (
                (BootPartStage::Done, cands, next),
                BootPartActionView::Found(cands[next]),
            ),
            _ => candidate_step(cands, next + 1),
        },
        _ => (m, BootPartActionView::Ignore),
    }
}

/// The search for the boot partition of a disk, driven by `step`.
#[derive(Debug)]
pub struct BootPartSearch {
    stage: BootPartStage,
    candidates: Vec<String>,
    next: usize,
}

impl View for BootPartSearch {
    type V = BootPartModel;

    closed spec fn view(&self) -> BootPartModel {
        (self.stage, self.candidates@.map_values(|s: String| s@), self.next as int)
    }
}

/// Whether any of the names is that of a kernel image.
fn any_kernel_image(names: &Vec<String>) -> (r: bool)
    ensures
        r == has_kernel_image(names@.map_values(|s: String| s@)),
{
    let ghost nv = names@.map_values(|s: String| s@);
    let mut i: usize = 0;
    while i < names.len()
        invariant
            i <= names@.len(),
            nv == names@.map_values(|s: String| s@),
            forall|j: int| 0 <= j < i ==> !starts_with(#[trigger] nv[j], "vmlinuz"@),
        decreases names.len() - i,
    {
        if is_kernel_image_name(names[i].as_str()) {
            assert(starts_with(nv[i as int], "vmlinuz"@));
            return true;
        }
        i += 1;
    }
    false
}

/// The disk of the search as an owned string.
fn owned_hint(hint: Option<&str>) -> (r: Option<String>)
    ensures
        r matches Some(s) ==> hint matches Some(h) && s@ == h@,
        r is None ==> hint is None,
{
    match hint {
        Some(h) => Some(h.to_owned()),
        None => None,
    }
}

impl BootPartSearch {
    #[verifier::type_invariant]
    spec fn well_formed(self) -> bool {
        &&& self.next <= self.candidates@.len()
        &&& (self.stage == BootPartStage::AwaitMounted || self.stage == BootPartStage::AwaitListing)
            ==> self.next < self.candidates@.len()
    }

    /// A search that has not begun.
    pub fn new() -> (r: BootPartSearch)
        ensures
            r@ == (BootPartStage::Start, Seq::<Seq<char>>::empty(), 0int),
    {
        let r = BootPartSearch { stage: BootPartStage::Start, candidates: Vec::new(), next: 0 };
        assert(r@.1 =~= Seq::<Seq<char>>::empty());
        r
    }

    /// Goes on with the candidate at `i`.
    fn go_to_candidate(&mut self, i: usize) -> (r: BootPartAction)
        requires
            i <= old(self).candidates@.len(),
        ensures
            (final(self)@, r@) == candidate_step(old(self)@.1, i as int),
    {
        proof {
            use_type_invariant(&*self);
        }
        if i < self.candidates.len() {
            self.next = i;
            self.stage = BootPartStage::AwaitMounted;
            BootPartAction::CheckMounted(self.candidates[i].clone())
        } else {
            self.stage = BootPartStage::Done;
            self.next = i;
            BootPartAction::Failed(BootPartError::NotFound)
        }
    }

    /// Takes in what came of the last action and says what to do next.
    pub fn step(&mut self, hint: Option<&str>, ev: BootPartEvent) -> (r: BootPartAction)
        ensures
            (final(self)@, r@) == boot_part_step(
                old(self)@,
                match hint {
                    Some(h) => Some(h@),
                    None => None,
                },
                ev@,
            ),
    {
        proof {
            use_type_invariant(&*self);
        }
        match ev {
            BootPartEvent::Started => {
                if self.stage == BootPartStage::Start {
                    match hint {
                        None => {
                            self.stage = BootPartStage::AwaitBootMountpoint;
                            return BootPartAction::CheckBootMountpoint;
                        },
                        Some(h) => {
                            self.stage = BootPartStage::AwaitBlkid;
                            return BootPartAction::RunBlkid(Some(h.to_owned()));
                        },
                    }
                }
            },
            BootPartEvent::BootMountpoint(b) => {
                if self.stage == BootPartStage::AwaitBootMountpoint {
                    if b {
                        self.stage = BootPartStage::AwaitBootSource;
                        return BootPartAction::FindBootSource;
                    }
                    self.stage = BootPartStage::AwaitBlkid;
                    return BootPartAction::RunBlkid(owned_hint(hint));
                }
            },
            BootPartEvent::BootSource(o) => {
                if self.stage == BootPartStage::AwaitBootSource {
                    if let Some(out) = o {
                        if let Some(d) = blkid_device(out.as_str()) {
                            self.stage = BootPartStage::Done;
                            return BootPartAction::Found(d);
                        }
                    }
                    self.stage = BootPartStage::AwaitBlkid;
                    return BootPartAction::RunBlkid(owned_hint(hint));
                }
            },
            BootPartEvent::Blkid(o) => {
                if self.stage == BootPartStage::AwaitBlkid {
                    if let Some(out) = o {
                        if let Some(d) = blkid_device(out.as_str()) {
                            self.stage = BootPartStage::Done;
                            return BootPartAction::Found(d);
                        }
                    }
                    self.stage = BootPartStage::AwaitLsblk;
                    return BootPartAction::RunLsblk;
                }
            },
            BootPartEvent::Lsblk(o) => {
                if self.stage == BootPartStage::AwaitLsblk {
                    match o {
                        Some(out) => {
                            self.next = 0;
                            self.candidates = lsblk_fs_devices(out.as_str());
                            return self.go_to_candidate(0);
                        },
                        None => {
                            self.stage = BootPartStage::Done;
                            return BootPartAction::Failed(BootPartError::LsblkFailed);
                        },
                    }
                }
            },
            BootPartEvent::Mounted(b) => {
                if self.stage == BootPartStage::AwaitMounted {
                    if b {
                        assert(self.next < self.candidates.len());
                        let n = self.next + 1;
                        return self.go_to_candidate(n);
                    } else {
                        self.stage = BootPartStage::AwaitListing;
                        return BootPartAction::ListRoot(self.candidates[self.next].clone());
                    }
                }
            },
            BootPartEvent::Listed(o) => {
                if self.stage == BootPartStage::AwaitListing {
                    if let Some(names) = o {
                        if any_kernel_image(&names) {
                            self.stage = BootPartStage::Done;
                            return BootPartAction::Found(self.candidates[self.next].clone());
                        }
                    }
                    assert(self.next < self.candidates.len());
                    let n = self.next + 1;
                    return self.go_to_candidate(n);
                }
            },
        }
        BootPartAction::Ignore
    }
}

} // verus!
