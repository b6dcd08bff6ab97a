//! Host devices that a container may use.
use vstd::prelude::*;
use vstd::string::*;

use crate::error::{seen, RunError, RunErrorView};
use crate::options::{DeviceSpec, DeviceView};
use crate::text::views;

verus! {

/// The kind of a file on the host.
#[derive(Clone, Copy, Debug, PartialEq, Eq, Structural)]
pub enum FileKind {
    CharDevice,
    BlockDevice,
    Other,
}

/// What the host says about a file: its kind, and the number of the device it stands for.
#[derive(Clone, Copy, Debug, PartialEq, Eq, Structural)]
pub struct DeviceInfo {
    pub kind: FileKind,
    pub rdev: u64,
}

/// The kind of a device.
#[derive(Clone, Copy, Debug, PartialEq, Eq, Structural)]
pub enum DeviceKind {
    Char,
    Block,
}

/// A device that is created in the container.
#[derive(Debug)]
pub struct DeviceNode {
    pub path: String,
    pub kind: DeviceKind,
    pub major: i64,
    pub minor: i64,
}

/// The model of a [`DeviceNode`].
#[verifier::ext_equal]
pub struct DeviceNodeView {
    pub path: Seq<char>,
    pub kind: DeviceKind,
    pub major: int,
    pub minor: int,
}

impl View for DeviceNode {
    type V = DeviceNodeView;

    open spec fn view(&self) -> DeviceNodeView {
        DeviceNodeView {
            path: self.path@,
            kind: self.kind,
            major: self.major as int,
            minor: self.minor as int,
        }
    }
}

/// What the processes of a container may do with a device.
#[derive(Debug)]
pub struct DeviceRule {
    pub allow: bool,
    pub kind: DeviceKind,
    /// The numbers of the device; a rule without them is for every device of its kind.
    pub major: Option<i64>,
    pub minor: Option<i64>,
    pub access: String,
}

/// The model of a [`DeviceRule`].
#[verifier::ext_equal]
pub struct DeviceRuleView {
    pub allow: bool,
    pub kind: DeviceKind,
    pub major: Option<int>,
    pub minor: Option<int>,
    pub access: Seq<char>,
}

/// A number that may be absent.
pub open spec fn opt_number(o: Option<i64>) -> Option<int> {
    match o {
        Some(n) => Some(n as int),
        None => None,
    }
}

impl View for DeviceRule {
    type V = DeviceRuleView;

    open spec fn view(&self) -> DeviceRuleView {
        DeviceRuleView {
            allow: self.allow,
            kind: self.kind,
            major: opt_number(self.major),
            minor: opt_number(self.minor),
            access: self.access@,
        }
    }
}

/// The devices of a container, and what may be done with them.
#[derive(Debug)]
pub struct Devices {
    pub nodes: Vec<DeviceNode>,
    pub rules: Vec<DeviceRule>,
}

/// The model of [`Devices`].
#[verifier::ext_equal]
pub struct DevicesView {
    pub nodes: Seq<DeviceNodeView>,
    pub rules: Seq<DeviceRuleView>,
}

impl View for Devices {
    type V = DevicesView;

    open spec fn view(&self) -> DevicesView {
        DevicesView { nodes: views(self.nodes@), rules: views(self.rules@) }
    }
}

/// No devices.
pub open spec fn no_devices() -> DevicesView {
    DevicesView { nodes: seq![], rules: seq![] }
}

/// The kind of device that a file is.
pub open spec fn device_kind(kind: FileKind) -> Option<DeviceKind> {
    match kind {
        FileKind::CharDevice => Some(DeviceKind::Char),
        FileKind::BlockDevice => Some(DeviceKind::Block),
        FileKind::Other => None,
    }
}

/// The major number in the number of a device: its low twelve bits stand behind the low byte, the
/// others at the top.
pub open spec fn major_of(rdev: u64) -> u64 {
    ((rdev >> 8) & 0xfff) | ((rdev >> 32) & 0xffff_f000)
}

/// The minor number in the number of a device: its low eight bits are the low byte, the others
/// stand between the two parts of the major number.
pub open spec fn minor_of(rdev: u64) -> u64 {
    (rdev & 0xff) | ((rdev >> 12) & 0xffff_ff00)
}

/// The number of the device with a major and a minor number.
pub open spec fn device_number(major: u64, minor: u64) -> u64 {
    ((major & 0xfff) << 8) | ((major & 0xffff_f000) << 32) | (minor & 0xff) | ((minor
        & 0xffff_ff00) << 12)
}

/// One more device, with the numbers that the host has for it.
pub open spec fn with_device(d: DevicesView, dev: DeviceView, info: DeviceInfo) -> Result<
    DevicesView,
    RunErrorView,
> {
    match device_kind(info.kind) {
        None => Err(RunErrorView::NotADevice(dev.src)),
        Some(kind) => {
            let major = major_of(info.rdev) as int;
            let minor = minor_of(info.rdev) as int;
            Ok(
                DevicesView {
                    nodes: d.nodes.push(DeviceNodeView { path: dev.dst, kind, major, minor }),
                    rules: d.rules.push(
                        DeviceRuleView {
                            allow: true,
                            kind,
                            major: Some(major),
                            minor: Some(minor),
                            access: dev.perms,
                        },
                    ),
                },
            )
        },
    }
}

/// The rule that every device of a kind may be read, written and made.
pub open spec fn free_access(kind: DeviceKind) -> DeviceRuleView {
    DeviceRuleView { allow: true, kind, major: None, minor: None, access: "rwm"@ }
}

/// Devices, and access to all others.
pub open spec fn with_free_access(d: DevicesView) -> DevicesView {
    DevicesView {
        nodes: d.nodes,
        rules: d.rules.push(free_access(DeviceKind::Char)).push(free_access(DeviceKind::Block)),
    }
}

/// The devices in their order; the first one that is none is refused.
pub open spec fn devices_value(devices: Seq<DeviceView>, info: Seq<DeviceInfo>) -> Result<
    DevicesView,
    RunErrorView,
>
    decreases devices.len(),
{
    if devices.len() == 0 {
        Ok(no_devices())
    } else {
        match devices_value(devices.drop_last(), info) {
            Err(e) => Err(e),
            Ok(d) => with_device(d, devices.last(), info[devices.len() - 1]),
        }
    }
}

/// Adds a device to those of a container. On failure nothing is added.
pub fn add_device_to_spec(d: &mut Devices, dev: &DeviceSpec, info: DeviceInfo) -> (r: Result<
    (),
    RunError,
>)
    ensures
        match r {
            Ok(_) => with_device(old(d)@, dev@, info) == Ok::<DevicesView, RunErrorView>(final(d)@),
            Err(e) => with_device(old(d)@, dev@, info) == Err::<DevicesView, RunErrorView>(e@)
                && final(d)@ == old(d)@,
        },
{
    let kind = match info.kind {
        FileKind::CharDevice => DeviceKind::Char,
        FileKind::BlockDevice => DeviceKind::Block,
        FileKind::Other => {
            return Err(RunError::NotADevice(dev.src.clone()));
        },
    };
    let rdev: u64 = info.rdev;
    proof {
        assert(((rdev >> 8) & 0xfff) | ((rdev >> 32) & 0xffff_f000) <= 0xffff_ffff) by (bit_vector);
        assert((rdev & 0xff) | ((rdev >> 12) & 0xffff_ff00) <= 0xffff_ffff) by (bit_vector);
    }
    let major: i64 = (((rdev >> 8) & 0xfff) | ((rdev >> 32) & 0xffff_f000)) as i64;
    let minor: i64 = ((rdev & 0xff) | ((rdev >> 12) & 0xffff_ff00)) as i64;
    let ghost nodes = views(d.nodes@);
    let ghost rules = views(d.rules@);
    let node = DeviceNode { path: dev.dst.clone(), kind, major, minor };
    let rule = DeviceRule {
        allow: true,
        kind,
        major: Some(major),
        minor: Some(minor),
        access: dev.perms.clone(),
    };
    d.nodes.push(node);
    d.rules.push(rule);
    assert(views(d.nodes@) =~= nodes.push(node@));
    assert(views(d.rules@) =~= rules.push(rule@));
    Ok(())
}

proof fn lemma_stays_refused(devices: Seq<DeviceView>, info: Seq<DeviceInfo>, i: int)
    requires
        0 <= i <= devices.len(),
        devices_value(devices.take(i), info) is Err,
    ensures
        devices_value(devices, info) == devices_value(devices.take(i), info),
    decreases devices.len(),
{
    if i < devices.len() {
        assert(devices.drop_last().take(i) =~= devices.take(i));
        lemma_stays_refused(devices.drop_last(), info, i);
    } else {
        assert(devices.take(i) =~= devices);
    }
}

/// The devices of a container. `info` is what the host says about each of them.
pub fn collect_devices(devices: &Vec<DeviceSpec>, info: &Vec<DeviceInfo>) -> (r: Result<
    Devices,
    RunError,
>)
    requires
        info@.len() == devices@.len(),
    ensures
        seen(r) == devices_value(views(devices@), info@),
{
    let ghost all = views(devices@);
    let mut d = Devices { nodes: Vec::new(), rules: Vec::new() };
    assert(d@ =~= no_devices());
    let mut i: usize = 0;
    assert(all.take(0) =~= seq![]);
    while i < devices.len()
        invariant
            all == views(devices@),
            info@.len() == devices@.len(),
            i <= devices@.len(),
            devices_value(all.take(i as int), info@) == Ok::<DevicesView, RunErrorView>(d@),
        decreases devices@.len() - i,
    {
        assert(all.take(i + 1).drop_last() =~= all.take(i as int));
        assert(all.take(i + 1).last() == devices@[i as int]@);
        match add_device_to_spec(&mut d, &devices[i], info[i]) {
            Ok(_) => {},
            Err(e) => {
                proof {
                    lemma_stays_refused(all, info@, i + 1);
                }
                return Err(e);
            },
        }
        i = i + 1;
    }
    assert(all.take(i as int) =~= all);
    Ok(d)
}

/// Gives access to all devices of the host.
pub fn allow_all_devices(d: &mut Devices)
    ensures
        final(d)@ == with_free_access(old(d)@),
{
    let ghost rules = views(d.rules@);
    let char_rule = DeviceRule {
        allow: true,
        kind: DeviceKind::Char,
        major: None,
        minor: None,
        access: "rwm".to_owned(),
    };
    let block_rule = DeviceRule {
        allow: true,
        kind: DeviceKind::Block,
        major: None,
        minor: None,
        access: "rwm".to_owned(),
    };
    d.rules.push(char_rule);
    d.rules.push(block_rule);
    assert(views(d.rules@) =~= rules.push(char_rule@).push(block_rule@));
}

/// Law: the major and the minor number of a device make up its number again, and both fit in 32
/// bits.
pub proof fn law_device_number_reads_back(rdev: u64)
    ensures
        device_number(major_of(rdev), minor_of(rdev)) == rdev,
        major_of(rdev) <= u32::MAX,
        minor_of(rdev) <= u32::MAX,
{
    let major = major_of(rdev);
    let minor = minor_of(rdev);
    assert(((major & 0xfff) << 8) | ((major & 0xffff_f000) << 32) | (minor & 0xff) | ((minor
        & 0xffff_ff00) << 12) == rdev) by (bit_vector)
        requires
            major == ((rdev >> 8) & 0xfff) | ((rdev >> 32) & 0xffff_f000),
            minor == (rdev & 0xff) | ((rdev >> 12) & 0xffff_ff00),
    ;
    assert(((rdev >> 8) & 0xfff) | ((rdev >> 32) & 0xffff_f000) <= 0xffff_ffff) by (bit_vector);
    assert((rdev & 0xff) | ((rdev >> 12) & 0xffff_ff00) <= 0xffff_ffff) by (bit_vector);
}

/// Law: a device of the host keeps its numbers: whatever its major and minor number are, they are
/// read out of the number that they make up.
pub proof fn law_device_keeps_its_numbers(major: u32, minor: u32)
    ensures
        major_of(device_number(major as u64, minor as u64)) == major,
        minor_of(device_number(major as u64, minor as u64)) == minor,
{
    let a = major as u64;
    let b = minor as u64;
    let rdev = device_number(a, b);
    assert(((rdev >> 8) & 0xfff) | ((rdev >> 32) & 0xffff_f000) == a) by (bit_vector)
        requires
            a <= 0xffff_ffff,
            b <= 0xffff_ffff,
            rdev == ((a & 0xfff) << 8) | ((a & 0xffff_f000) << 32) | (b & 0xff) | ((b & 0xffff_ff00)
                << 12),
    ;
    assert((rdev & 0xff) | ((rdev >> 12) & 0xffff_ff00) == b) by (bit_vector)
        requires
            a <= 0xffff_ffff,
            b <= 0xffff_ffff,
            rdev == ((a & 0xfff) << 8) | ((a & 0xffff_f000) << 32) | (b & 0xff) | ((b & 0xffff_ff00)
                << 12),
    ;
}

/// Law: there is one rule for each device, with its kind and its numbers, which together make up
/// the number that the host has for it.
pub proof fn law_each_device_has_its_rule(devices: Seq<DeviceView>, info: Seq<DeviceInfo>)
    requires
        info.len() == devices.len(),
    ensures
        devices_value(devices, info) matches Ok(d) ==> {
            &&& d.nodes.len() == devices.len()
            &&& d.rules.len() == devices.len()
            &&& forall|i: int|
                0 <= i < devices.len() ==> {
                    &&& (#[trigger] d.nodes[i]).path == devices[i].dst
                    &&& device_number(d.nodes[i].major as u64, d.nodes[i].minor as u64)
                        == info[i].rdev
                    &&& d.rules[i].allow
                    &&& d.rules[i].kind == d.nodes[i].kind
                    &&& d.rules[i].major == Some(d.nodes[i].major)
                    &&& d.rules[i].minor == Some(d.nodes[i].minor)
                    &&& d.rules[i].access == devices[i].perms
                }
        },
    decreases devices.len(),
{
    if devices.len() > 0 {
        let front = devices.drop_last();
        lemma_info_behind_does_not_matter(front, info, info.drop_last());
        law_each_device_has_its_rule(front, info.drop_last());
        if let Ok(d) = devices_value(devices, info) {
            let e = devices_value(front, info)->Ok_0;
            assert forall|i: int| 0 <= i < devices.len() implies {
                &&& (#[trigger] d.nodes[i]).path == devices[i].dst
                &&& device_number(d.nodes[i].major as u64, d.nodes[i].minor as u64)
                    == info[i].rdev
                &&& d.rules[i].allow
                &&& d.rules[i].kind == d.nodes[i].kind
                &&& d.rules[i].major == Some(d.nodes[i].major)
                &&& d.rules[i].minor == Some(d.nodes[i].minor)
                &&& d.rules[i].access == devices[i].perms
            } by {
                if i < front.len() {
                    assert(d.nodes[i] == e.nodes[i]);
                    assert(d.rules[i] == e.rules[i]);
                    assert(front[i] == devices[i]);
                    assert(info.drop_last()[i] == info[i]);
                } else {
                    law_device_number_reads_back(info[i].rdev);
                }
            }
        }
    }
}

/// Law: no rule takes access to a device away.
pub proof fn law_device_rules_allow(devices: Seq<DeviceView>, info: Seq<DeviceInfo>)
    ensures
        devices_value(devices, info) matches Ok(d) ==> forall|i: int|
            0 <= i < d.rules.len() ==> (#[trigger] d.rules[i]).allow,
    decreases devices.len(),
{
    if devices.len() > 0 {
        law_device_rules_allow(devices.drop_last(), info);
    }
}

proof fn lemma_info_behind_does_not_matter(
    devices: Seq<DeviceView>,
    a: Seq<DeviceInfo>,
    b: Seq<DeviceInfo>,
)
    requires
        a.len() >= devices.len(),
        b.len() >= devices.len(),
        forall|i: int| 0 <= i < devices.len() ==> #[trigger] a[i] == b[i],
    ensures
        devices_value(devices, a) == devices_value(devices, b),
    decreases devices.len(),
{
    if devices.len() > 0 {
        lemma_info_behind_does_not_matter(devices.drop_last(), a, b);
        assert(a[devices.len() - 1] == b[devices.len() - 1]);
    }
}

/// Law: a device has the kind that the host says, and is refused exactly where the first one that
/// is no device stands: the message names its path on the host.
pub proof fn law_devices_have_their_kind(devices: Seq<DeviceView>, info: Seq<DeviceInfo>, i: int)
    requires
        info.len() == devices.len(),
        0 <= i <= devices.len(),
        forall|j: int| 0 <= j < i ==> (#[trigger] info[j]).kind != FileKind::Other,
        i < devices.len() ==> info[i].kind == FileKind::Other,
    ensures
        i < devices.len() ==> devices_value(devices, info) == Err::<DevicesView, RunErrorView>(
            RunErrorView::NotADevice(devices[i].src),
        ),
        i == devices.len() ==> (devices_value(devices, info) matches Ok(d) && d.nodes.len()
            == devices.len() && forall|j: int|
            0 <= j < devices.len() ==> ((#[trigger] d.nodes[j]).kind == DeviceKind::Char
                <==> info[j].kind == FileKind::CharDevice) && (d.nodes[j].kind == DeviceKind::Block
                <==> info[j].kind == FileKind::BlockDevice)),
    decreases devices.len(),
{
    if devices.len() > 0 {
        let front = devices.drop_last();
        let before = info.drop_last();
        lemma_info_behind_does_not_matter(front, info, before);
        assert forall|j: int| 0 <= j < i && j < front.len() implies (#[trigger] before[j]).kind
            != FileKind::Other by {
            assert(before[j] == info[j]);
        }
        if i < front.len() {
            assert(before[i] == info[i]);
            law_devices_have_their_kind(front, before, i);
        } else {
            law_devices_have_their_kind(front, before, front.len() as int);
            let e = devices_value(front, info)->Ok_0;
            if i == devices.len() {
                assert(info[devices.len() - 1].kind != FileKind::Other);
                let d = devices_value(devices, info)->Ok_0;
                assert forall|j: int| 0 <= j < devices.len() implies ((
                #[trigger] d.nodes[j]).kind == DeviceKind::Char <==> info[j].kind
                    == FileKind::CharDevice) && (d.nodes[j].kind == DeviceKind::Block
                    <==> info[j].kind == FileKind::BlockDevice) by {
                    if j < front.len() {
                        assert(d.nodes[j] == e.nodes[j]);
                        assert(before[j] == info[j]);
                    }
                }
            }
        }
    }
}

/// Law: free access adds the two rules for all devices behind the others, and no device.
pub proof fn law_free_access_adds_two_rules(d: DevicesView)
    ensures
        with_free_access(d).nodes == d.nodes,
        with_free_access(d).rules == d.rules + seq![
            DeviceRuleView {
                allow: true,
                kind: DeviceKind::Char,
                major: None,
                minor: None,
                access: "rwm"@,
            },
            DeviceRuleView {
                allow: true,
                kind: DeviceKind::Block,
                major: None,
                minor: None,
                access: "rwm"@,
            },
        ],
{
}

} // verus!
