//! The mounts of a container.
use vstd::prelude::*;
use vstd::string::*;

use crate::error::{copy_option, opt_text};
use crate::options::{DeviceSpec, DeviceView, VolumeSpec, VolumeView};
use crate::path::paths_equal;
use crate::path::{absolute, components, is_absolute, is_named, law_absolute_has_its_components, same_path};
use crate::text::{copy_texts, four, has_char, one, two};
use crate::text::{opt_texts, texts, views};

verus! {

/// A mount.
#[derive(Debug)]
pub struct Mount {
    pub destination: String,
    pub typ: Option<String>,
    pub source: Option<String>,
    pub options: Option<Vec<String>>,
}

/// The model of a [`Mount`].
#[verifier::ext_equal]
pub struct MountView {
    pub destination: Seq<char>,
    pub typ: Option<Seq<char>>,
    pub source: Option<Seq<char>>,
    pub options: Option<Seq<Seq<char>>>,
}

impl View for Mount {
    type V = MountView;

    open spec fn view(&self) -> MountView {
        MountView {
            destination: self.destination@,
            typ: opt_text(self.typ),
            source: opt_text(self.source),
            options: opt_texts(self.options),
        }
    }
}

/// A mount of which everything is given.
pub open spec fn mount(
    destination: Seq<char>,
    typ: Seq<char>,
    source: Seq<char>,
    options: Seq<Seq<char>>,
) -> MountView {
    MountView { destination, typ: Some(typ), source: Some(source), options: Some(options) }
}

impl Mount {
    /// A mount of which everything is given.
    pub fn new(destination: &str, typ: &str, source: &str, options: Vec<String>) -> (r: Mount)
        ensures
            r@ == mount(destination@, typ@, source@, texts(options@)),
    {
        Mount {
            destination: destination.to_owned(),
            typ: Some(typ.to_owned()),
            source: Some(source.to_owned()),
            options: Some(options),
        }
    }

    /// A copy of a mount.
    pub fn copy(&self) -> (r: Mount)
        ensures
            r@ == self@,
    {
        let typ = copy_option(&self.typ);
        let source = copy_option(&self.source);
        let options = match &self.options {
            Some(list) => Some(copy_texts(list)),
            None => None,
        };
        Mount { destination: self.destination.clone(), typ, source, options }
    }
}

// ---------------------------------------------------------------------------------------
// What every container has

/// The mounts that every container starts from.
pub open spec fn default_mount_list() -> Seq<MountView> {
    seq![
        MountView {
            destination: "/proc"@,
            typ: Some("proc"@),
            source: Some("proc"@),
            options: None,
        },
        mount(
            "/dev"@,
            "tmpfs"@,
            "tmpfs"@,
            seq!["nosuid"@, "strictatime"@, "mode=755"@, "size=65536k"@],
        ),
        mount(
            "/dev/pts"@,
            "devpts"@,
            "devpts"@,
            seq!["nosuid"@, "noexec"@, "newinstance"@, "ptmxmode=0666"@, "mode=0620"@, "gid=5"@],
        ),
        mount(
            "/dev/shm"@,
            "tmpfs"@,
            "shm"@,
            seq!["nosuid"@, "noexec"@, "nodev"@, "mode=1777"@, "size=65536k"@],
        ),
        mount("/dev/mqueue"@, "mqueue"@, "mqueue"@, seq!["nosuid"@, "noexec"@, "nodev"@]),
        mount("/sys"@, "sysfs"@, "sysfs"@, seq!["nosuid"@, "noexec"@, "nodev"@, "ro"@]),
        mount(
            "/sys/fs/cgroup"@,
            "cgroup"@,
            "cgroup"@,
            seq!["nosuid"@, "noexec"@, "nodev"@, "relatime"@, "ro"@],
        ),
    ]
}

/// The mounts of `oci_spec`'s `get_default_mounts`, which its `Spec::default` holds.
///
/// The clause says which ones they are, in their order.
#[verifier::external_body]
pub(crate) fn oci_default_mounts() -> (r: Vec<Mount>)
    ensures
        views(r@) == default_mount_list(),
{
    oci_spec::runtime::get_default_mounts().iter().map(
        |m| Mount {
            destination: m.destination().display().to_string(),
            typ: m.typ().clone(),
            source: m.source().as_ref().map(|s| s.display().to_string()),
            options: m.options().clone(),
        },
    ).collect()
}

// ---------------------------------------------------------------------------------------
// Replacing

/// The mounts that stand elsewhere.
pub open spec fn elsewhere(mounts: Seq<MountView>, place: Seq<char>) -> Seq<MountView>
    decreases mounts.len(),
{
    if mounts.len() == 0 {
        seq![]
    } else if same_path(mounts.last().destination, place) {
        elsewhere(mounts.drop_last(), place)
    } else {
        elsewhere(mounts.drop_last(), place).push(mounts.last())
    }
}

/// The mounts with `m` at the end, in place of those that stood where it stands.
pub open spec fn replaced(mounts: Seq<MountView>, m: MountView) -> Seq<MountView> {
    elsewhere(mounts, m.destination).push(m)
}

/// No two mounts stand at the same place.
pub open spec fn stand_apart(mounts: Seq<MountView>) -> bool {
    forall|i: int, j: int|
        0 <= i < j < mounts.len() ==> !same_path(
            #[trigger] mounts[i].destination,
            #[trigger] mounts[j].destination,
        )
}

/// What `elsewhere` keeps: the mounts that stand elsewhere, all of them, and no other.
pub proof fn lemma_elsewhere(mounts: Seq<MountView>, place: Seq<char>)
    ensures
        forall|m: MountView| #[trigger]
            elsewhere(mounts, place).contains(m) <==> mounts.contains(m) && !same_path(
                m.destination,
                place,
            ),
        elsewhere(mounts, place).len() <= mounts.len(),
    decreases mounts.len(),
{
    if mounts.len() > 0 {
        let front = mounts.drop_last();
        let last = mounts.last();
        lemma_elsewhere(front, place);
        let kept = elsewhere(front, place);
        assert forall|m: MountView| #[trigger]
            elsewhere(mounts, place).contains(m) <==> mounts.contains(m) && !same_path(
                m.destination,
                place,
            ) by {
            assert(mounts =~= front.push(last));
            if front.contains(m) {
                let k = choose|k: int| 0 <= k < front.len() && front[k] == m;
                assert(mounts[k] == m);
            }
            if mounts.contains(m) && m != last {
                let k = choose|k: int| 0 <= k < mounts.len() && mounts[k] == m;
                assert(front[k] == m);
            }
            assert(mounts[mounts.len() - 1] == last);
            if !same_path(last.destination, place) {
                if kept.contains(m) {
                    let k = choose|k: int| 0 <= k < kept.len() && kept[k] == m;
                    assert(kept.push(last)[k] == m);
                }
                assert(kept.push(last)[kept.len() as int] == last);
                if kept.push(last).contains(m) && m != last {
                    let k = choose|k: int| 0 <= k < kept.len() + 1 && kept.push(last)[k] == m;
                    assert(kept[k] == m);
                }
            }
        }
    }
}

/// Law: a mount that replaces others stands alone at its place, and the mounts that stand
/// elsewhere are all still there.
pub proof fn law_replacing_clears_the_place(mounts: Seq<MountView>, m: MountView)
    ensures
        replaced(mounts, m).last() == m,
        forall|i: int|
            0 <= i < replaced(mounts, m).len() - 1 ==> !same_path(
                (#[trigger] replaced(mounts, m)[i]).destination,
                m.destination,
            ),
        forall|n: MountView|
            mounts.contains(n) && !same_path(n.destination, m.destination)
                ==> #[trigger] replaced(mounts, m).contains(n),
{
    lemma_elsewhere(mounts, m.destination);
    let kept = elsewhere(mounts, m.destination);
    assert forall|i: int| 0 <= i < replaced(mounts, m).len() - 1 implies !same_path(
        (#[trigger] replaced(mounts, m)[i]).destination,
        m.destination,
    ) by {
        assert(kept.contains(kept[i]));
    }
    assert forall|n: MountView|
        mounts.contains(n) && !same_path(n.destination, m.destination) implies #[trigger] replaced(
        mounts,
        m,
    ).contains(n) by {
        let k = choose|k: int| 0 <= k < kept.len() && kept[k] == n;
        assert(kept.contains(n));
        assert(replaced(mounts, m)[k] == n);
    }
}

proof fn lemma_elsewhere_stands_apart(mounts: Seq<MountView>, place: Seq<char>)
    requires
        stand_apart(mounts),
    ensures
        stand_apart(elsewhere(mounts, place)),
    decreases mounts.len(),
{
    if mounts.len() > 0 {
        let front = mounts.drop_last();
        let last = mounts.last();
        assert(stand_apart(front)) by {
            assert forall|i: int, j: int| 0 <= i < j < front.len() implies !same_path(
                #[trigger] front[i].destination,
                #[trigger] front[j].destination,
            ) by {
                assert(front[i] == mounts[i] && front[j] == mounts[j]);
            }
        }
        lemma_elsewhere_stands_apart(front, place);
        lemma_elsewhere(front, place);
        let kept = elsewhere(front, place);
        assert forall|i: int| 0 <= i < kept.len() implies !same_path(
            (#[trigger] kept[i]).destination,
            last.destination,
        ) by {
            assert(kept.contains(kept[i]));
            let k = choose|k: int| 0 <= k < front.len() && front[k] == kept[i];
            assert(mounts[k] == kept[i]);
            assert(mounts[mounts.len() - 1] == last);
        }
    }
}

/// Law: mounts at different places stay at different places when one is replaced.
pub proof fn law_replacing_keeps_apart(mounts: Seq<MountView>, m: MountView)
    requires
        stand_apart(mounts),
    ensures
        stand_apart(replaced(mounts, m)),
{
    lemma_elsewhere_stands_apart(mounts, m.destination);
    law_replacing_clears_the_place(mounts, m);
    let r = replaced(mounts, m);
    let kept = elsewhere(mounts, m.destination);
    assert forall|i: int, j: int| 0 <= i < j < r.len() implies !same_path(
        #[trigger] r[i].destination,
        #[trigger] r[j].destination,
    ) by {
        assert(r[i] == kept[i]);
        if j < r.len() - 1 {
            assert(r[j] == kept[j]);
        }
    }
}

/// Puts `m` at the end, in place of the mounts that stand where it stands.
pub fn replace_mount(mounts: &Vec<Mount>, m: Mount) -> (r: Vec<Mount>)
    ensures
        views(r@) == replaced(views(mounts@), m@),
{
    let ghost all = views(mounts@);
    let mut r: Vec<Mount> = Vec::new();
    let mut i: usize = 0;
    assert(views(r@) =~= elsewhere(all.take(0), m@.destination));
    while i < mounts.len()
        invariant
            all == views(mounts@),
            i <= mounts@.len(),
            views(r@) == elsewhere(all.take(i as int), m@.destination),
        decreases mounts@.len() - i,
    {
        assert(all.take(i + 1).drop_last() =~= all.take(i as int));
        assert(all.take(i + 1).last() == mounts@[i as int]@);
        if !paths_equal(mounts[i].destination.as_str(), m.destination.as_str()) {
            let ghost before = views(r@);
            r.push(mounts[i].copy());
            assert(views(r@) =~= before.push(mounts@[i as int]@));
        }
        i = i + 1;
    }
    assert(all.take(i as int) =~= all);
    let ghost before = views(r@);
    r.push(m);
    assert(views(r@) =~= before.push(m@));
    r
}

// ---------------------------------------------------------------------------------------
// Places that stay writable

/// Where a tmpfs is mounted: where programs expect to write though the root file system is
/// read-only, and where systemd does.
pub open spec fn tmpfs_places(read_only: bool, systemd: bool) -> Seq<Seq<char>> {
    if read_only && systemd {
        seq!["/dev/shm"@, "/run"@, "/tmp"@, "/var/tmp"@, "/run/lock"@, "/var/log/journal"@]
    } else if read_only {
        seq!["/dev/shm"@, "/run"@, "/tmp"@, "/var/tmp"@]
    } else if systemd {
        seq!["/run"@, "/run/lock"@, "/tmp"@, "/var/log/journal"@]
    } else {
        seq![]
    }
}

/// A tmpfs at a place.
pub open spec fn tmpfs_mount(place: Seq<char>, systemd: bool) -> MountView {
    mount(
        place,
        "tmpfs"@,
        "tmpfs"@,
        if systemd {
            seq!["rw"@, "rprivate"@, "nosuid"@, "nodev"@, "tmpcopyup"@]
        } else {
            seq!["nosuid"@, "nodev"@, "mode=1777"@]
        },
    )
}

/// The control groups, writable as systemd needs them.
pub open spec fn cgroup_mount() -> MountView {
    mount("/sys/fs/cgroup"@, "cgroup"@, "cgroup"@, seq!["private"@, "rw"@])
}

/// Mounts with a tmpfs at each of some places.
pub open spec fn with_tmpfs(
    mounts: Seq<MountView>,
    places: Seq<Seq<char>>,
    systemd: bool,
) -> Seq<MountView>
    decreases places.len(),
{
    if places.len() == 0 {
        mounts
    } else {
        replaced(
            with_tmpfs(mounts, places.drop_last(), systemd),
            tmpfs_mount(places.last(), systemd),
        )
    }
}

/// The mounts that a container has before any is asked for by name.
pub open spec fn system_mount_list(read_only: bool, systemd: bool) -> Seq<MountView> {
    let mounts = with_tmpfs(default_mount_list(), tmpfs_places(read_only, systemd), systemd);
    if systemd {
        replaced(mounts, cgroup_mount())
    } else {
        mounts
    }
}

fn tmpfs_place_list(read_only: bool, systemd: bool) -> (r: Vec<String>)
    ensures
        texts(r@) == tmpfs_places(read_only, systemd),
{
    let mut r: Vec<String> = Vec::new();
    if read_only {
        r.push("/dev/shm".to_owned());
    }
    if read_only || systemd {
        r.push("/run".to_owned());
    }
    if systemd && !read_only {
        r.push("/run/lock".to_owned());
    }
    if read_only || systemd {
        r.push("/tmp".to_owned());
    }
    if read_only {
        r.push("/var/tmp".to_owned());
    }
    if systemd && read_only {
        r.push("/run/lock".to_owned());
    }
    if systemd {
        r.push("/var/log/journal".to_owned());
    }
    assert(texts(r@) =~= tmpfs_places(read_only, systemd));
    r
}

fn tmpfs_at(place: &str, systemd: bool) -> (r: Mount)
    ensures
        r@ == tmpfs_mount(place@, systemd),
{
    let options: Vec<String> = if systemd {
        let mut options = four("rw", "rprivate", "nosuid", "nodev");
        let ghost before = texts(options@);
        options.push("tmpcopyup".to_owned());
        assert(texts(options@) =~= before.push("tmpcopyup"@));
        options
    } else {
        let mut options = two("nosuid", "nodev");
        let ghost before = texts(options@);
        options.push("mode=1777".to_owned());
        assert(texts(options@) =~= before.push("mode=1777"@));
        options
    };
    assert(texts(options@) =~= if systemd {
        seq!["rw"@, "rprivate"@, "nosuid"@, "nodev"@, "tmpcopyup"@]
    } else {
        seq!["nosuid"@, "nodev"@, "mode=1777"@]
    });
    Mount::new(place, "tmpfs", "tmpfs", options)
}

/// The mounts that a container has before any is asked for by name. `read_only` says that the
/// root file system is read-only and that the usual places are to stay writable.
pub fn system_mounts(read_only: bool, systemd: bool) -> (r: Vec<Mount>)
    ensures
        views(r@) == system_mount_list(read_only, systemd),
{
    let places = tmpfs_place_list(read_only, systemd);
    let ghost all = texts(places@);
    let mut mounts = oci_default_mounts();
    let mut i: usize = 0;
    assert(all.take(0) =~= seq![]);
    while i < places.len()
        invariant
            all == texts(places@),
            i <= places@.len(),
            views(mounts@) == with_tmpfs(default_mount_list(), all.take(i as int), systemd),
        decreases places@.len() - i,
    {
        assert(all.take(i + 1).drop_last() =~= all.take(i as int));
        assert(all.take(i + 1).last() == places@[i as int]@);
        mounts = replace_mount(&mounts, tmpfs_at(places[i].as_str(), systemd));
        i = i + 1;
    }
    assert(all.take(i as int) =~= all);
    if systemd {
        replace_mount(
            &mounts,
            Mount::new("/sys/fs/cgroup", "cgroup", "cgroup", two("private", "rw")),
        )
    } else {
        mounts
    }
}

// ---------------------------------------------------------------------------------------
// What is asked for by name

/// A host directory at its place in the container.
pub open spec fn volume_mount(v: VolumeView) -> MountView {
    mount(
        v.container,
        "none"@,
        v.host,
        if v.read_only {
            seq!["rbind"@, "ro"@]
        } else {
            seq!["rbind"@]
        },
    )
}

/// A host device at its place in the container. Where an ordinary user started the container,
/// the mount itself says whether the device may be written.
pub open spec fn device_mount(d: DeviceView, rootless: bool) -> MountView {
    mount(
        d.dst,
        "none"@,
        d.src,
        if rootless {
            seq![
                "rbind"@,
                "nosuid"@,
                "noexec"@,
                if d.perms.contains('w') {
                    "rw"@
                } else {
                    "ro"@
                },
            ]
        } else {
            seq!["rbind"@]
        },
    )
}

pub open spec fn volume_mount_list(volumes: Seq<VolumeView>) -> Seq<MountView> {
    Seq::new(volumes.len(), |i: int| volume_mount(volumes[i]))
}

pub open spec fn device_mount_list(devices: Seq<DeviceView>, rootless: bool) -> Seq<MountView> {
    Seq::new(devices.len(), |i: int| device_mount(devices[i], rootless))
}

/// The mounts of the host directories.
pub fn volume_mounts(volumes: &Vec<VolumeSpec>) -> (r: Vec<Mount>)
    ensures
        views(r@) == volume_mount_list(views(volumes@)),
{
    let ghost all = volume_mount_list(views(volumes@));
    let mut r: Vec<Mount> = Vec::new();
    let mut i: usize = 0;
    while i < volumes.len()
        invariant
            all == volume_mount_list(views(volumes@)),
            i <= volumes@.len(),
            views(r@) == all.take(i as int),
        decreases volumes@.len() - i,
    {
        let v = &volumes[i];
        let options = if v.read_only { two("rbind", "ro") } else { one("rbind") };
        let ghost before = views(r@);
        r.push(Mount::new(v.container.as_str(), "none", v.host.as_str(), options));
        assert(views(r@) =~= before.push(volume_mount(v@)));
        assert(all.take(i + 1) =~= all.take(i as int).push(volume_mount(v@)));
        i = i + 1;
    }
    assert(all.take(i as int) =~= all);
    r
}

/// The mounts of the host devices.
pub fn device_mounts(devices: &Vec<DeviceSpec>, rootless: bool) -> (r: Vec<Mount>)
    ensures
        views(r@) == device_mount_list(views(devices@), rootless),
{
    let ghost all = device_mount_list(views(devices@), rootless);
    let mut r: Vec<Mount> = Vec::new();
    let mut i: usize = 0;
    while i < devices.len()
        invariant
            all == device_mount_list(views(devices@), rootless),
            i <= devices@.len(),
            views(r@) == all.take(i as int),
        decreases devices@.len() - i,
    {
        let d = &devices[i];
        let options = if rootless {
            let access = if has_char(d.perms.as_str(), 'w') { "rw" } else { "ro" };
            four("rbind", "nosuid", "noexec", access)
        } else {
            one("rbind")
        };
        let ghost before = views(r@);
        r.push(Mount::new(d.dst.as_str(), "none", d.src.as_str(), options));
        assert(views(r@) =~= before.push(device_mount(d@, rootless)));
        assert(all.take(i + 1) =~= all.take(i as int).push(device_mount(d@, rootless)));
        i = i + 1;
    }
    assert(all.take(i as int) =~= all);
    r
}

/// Puts the mounts of a second list behind those of a first one.
pub fn append_mounts(mounts: Vec<Mount>, more: &Vec<Mount>) -> (r: Vec<Mount>)
    ensures
        views(r@) == views(mounts@) + views(more@),
{
    let mut r = mounts;
    let ghost start = views(mounts@);
    let ghost all = views(more@);
    let mut i: usize = 0;
    assert(start + all.take(0) =~= start);
    while i < more.len()
        invariant
            all == views(more@),
            i <= more@.len(),
            views(r@) == start + all.take(i as int),
        decreases more@.len() - i,
    {
        let ghost before = views(r@);
        r.push(more[i].copy());
        assert(views(r@) =~= before.push(more@[i as int]@));
        assert(start + all.take(i + 1) =~= before.push(all[i as int]));
        i = i + 1;
    }
    assert(all.take(i as int) =~= all);
    r
}

// ---------------------------------------------------------------------------------------
// Laws

proof fn lemma_components_of_one(p: Seq<char>, a: Seq<char>)
    requires
        p == seq!['/'] + a,
        is_named(a),
        !a.contains('/'),
    ensures
        is_absolute(p),
        components(p) == seq![a],
{
    let names = seq![a];
    assert(names.drop_last() =~= seq![]);
    reveal_with_fuel(absolute, 2);
    assert(absolute(names) =~= p);
    law_absolute_has_its_components(names);
}

proof fn lemma_components_of_two(p: Seq<char>, a: Seq<char>, b: Seq<char>)
    requires
        p == seq!['/'] + a + seq!['/'] + b,
        is_named(a) && is_named(b),
        !a.contains('/') && !b.contains('/'),
    ensures
        is_absolute(p),
        components(p) == seq![a, b],
{
    let names = seq![a, b];
    assert(names.drop_last() =~= seq![a]);
    assert(seq![a].drop_last() =~= seq![]);
    reveal_with_fuel(absolute, 3);
    assert(absolute(names) =~= p);
    law_absolute_has_its_components(names);
}

proof fn lemma_components_of_three(p: Seq<char>, a: Seq<char>, b: Seq<char>, c: Seq<char>)
    requires
        p == seq!['/'] + a + seq!['/'] + b + seq!['/'] + c,
        is_named(a) && is_named(b) && is_named(c),
        !a.contains('/') && !b.contains('/') && !c.contains('/'),
    ensures
        is_absolute(p),
        components(p) == seq![a, b, c],
{
    let names = seq![a, b, c];
    assert(names.drop_last() =~= seq![a, b]);
    assert(seq![a, b].drop_last() =~= seq![a]);
    assert(seq![a].drop_last() =~= seq![]);
    reveal_with_fuel(absolute, 4);
    assert(absolute(names) =~= p);
    law_absolute_has_its_components(names);
}

/// The components of the places at which a container has mounts of its own.
proof fn lemma_places()
    ensures
        components("/proc"@) == seq!["proc"@],
        components("/dev"@) == seq!["dev"@],
        components("/dev/pts"@) == seq!["dev"@, "pts"@],
        components("/dev/shm"@) == seq!["dev"@, "shm"@],
        components("/dev/mqueue"@) == seq!["dev"@, "mqueue"@],
        components("/sys"@) == seq!["sys"@],
        components("/sys/fs/cgroup"@) == seq!["sys"@, "fs"@, "cgroup"@],
        components("/run"@) == seq!["run"@],
        components("/tmp"@) == seq!["tmp"@],
        components("/var/tmp"@) == seq!["var"@, "tmp"@],
        components("/run/lock"@) == seq!["run"@, "lock"@],
        components("/var/log/journal"@) == seq!["var"@, "log"@, "journal"@],
{
    reveal_strlit(".");
    reveal_strlit("proc");
    assert("proc"@ =~= seq!['p', 'r', 'o', 'c']);
    assert(!"proc"@.contains('/'));
    reveal_strlit("dev");
    assert("dev"@ =~= seq!['d', 'e', 'v']);
    assert(!"dev"@.contains('/'));
    reveal_strlit("pts");
    assert("pts"@ =~= seq!['p', 't', 's']);
    assert(!"pts"@.contains('/'));
    reveal_strlit("shm");
    assert("shm"@ =~= seq!['s', 'h', 'm']);
    assert(!"shm"@.contains('/'));
    reveal_strlit("mqueue");
    assert("mqueue"@ =~= seq!['m', 'q', 'u', 'e', 'u', 'e']);
    assert(!"mqueue"@.contains('/'));
    reveal_strlit("sys");
    assert("sys"@ =~= seq!['s', 'y', 's']);
    assert(!"sys"@.contains('/'));
    reveal_strlit("fs");
    assert("fs"@ =~= seq!['f', 's']);
    assert(!"fs"@.contains('/'));
    reveal_strlit("cgroup");
    assert("cgroup"@ =~= seq!['c', 'g', 'r', 'o', 'u', 'p']);
    assert(!"cgroup"@.contains('/'));
    reveal_strlit("run");
    assert("run"@ =~= seq!['r', 'u', 'n']);
    assert(!"run"@.contains('/'));
    reveal_strlit("tmp");
    assert("tmp"@ =~= seq!['t', 'm', 'p']);
    assert(!"tmp"@.contains('/'));
    reveal_strlit("var");
    assert("var"@ =~= seq!['v', 'a', 'r']);
    assert(!"var"@.contains('/'));
    reveal_strlit("lock");
    assert("lock"@ =~= seq!['l', 'o', 'c', 'k']);
    assert(!"lock"@.contains('/'));
    reveal_strlit("log");
    assert("log"@ =~= seq!['l', 'o', 'g']);
    assert(!"log"@.contains('/'));
    reveal_strlit("journal");
    assert("journal"@ =~= seq!['j', 'o', 'u', 'r', 'n', 'a', 'l']);
    assert(!"journal"@.contains('/'));
    reveal_strlit("/proc");
    assert("/proc"@ =~= seq!['/'] + "proc"@);
    lemma_components_of_one("/proc"@, "proc"@);
    reveal_strlit("/dev");
    assert("/dev"@ =~= seq!['/'] + "dev"@);
    lemma_components_of_one("/dev"@, "dev"@);
    reveal_strlit("/dev/pts");
    assert("/dev/pts"@ =~= seq!['/'] + "dev"@ + seq!['/'] + "pts"@);
    lemma_components_of_two("/dev/pts"@, "dev"@, "pts"@);
    reveal_strlit("/dev/shm");
    assert("/dev/shm"@ =~= seq!['/'] + "dev"@ + seq!['/'] + "shm"@);
    lemma_components_of_two("/dev/shm"@, "dev"@, "shm"@);
    reveal_strlit("/dev/mqueue");
    assert("/dev/mqueue"@ =~= seq!['/'] + "dev"@ + seq!['/'] + "mqueue"@);
    lemma_components_of_two("/dev/mqueue"@, "dev"@, "mqueue"@);
    reveal_strlit("/sys");
    assert("/sys"@ =~= seq!['/'] + "sys"@);
    lemma_components_of_one("/sys"@, "sys"@);
    reveal_strlit("/sys/fs/cgroup");
    assert("/sys/fs/cgroup"@ =~= seq!['/'] + "sys"@ + seq!['/'] + "fs"@ + seq!['/'] + "cgroup"@);
    lemma_components_of_three("/sys/fs/cgroup"@, "sys"@, "fs"@, "cgroup"@);
    reveal_strlit("/run");
    assert("/run"@ =~= seq!['/'] + "run"@);
    lemma_components_of_one("/run"@, "run"@);
    reveal_strlit("/tmp");
    assert("/tmp"@ =~= seq!['/'] + "tmp"@);
    lemma_components_of_one("/tmp"@, "tmp"@);
    reveal_strlit("/var/tmp");
    assert("/var/tmp"@ =~= seq!['/'] + "var"@ + seq!['/'] + "tmp"@);
    lemma_components_of_two("/var/tmp"@, "var"@, "tmp"@);
    reveal_strlit("/run/lock");
    assert("/run/lock"@ =~= seq!['/'] + "run"@ + seq!['/'] + "lock"@);
    lemma_components_of_two("/run/lock"@, "run"@, "lock"@);
    reveal_strlit("/var/log/journal");
    assert("/var/log/journal"@ =~= seq!['/'] + "var"@ + seq!['/'] + "log"@ + seq!['/'] + "journal"@);
    lemma_components_of_three("/var/log/journal"@, "var"@, "log"@, "journal"@);
}

proof fn lemma_names_differ()
    ensures
        "proc"@ != "dev"@,
        "proc"@ != "sys"@,
        "proc"@ != "run"@,
        "proc"@ != "tmp"@,
        "proc"@ != "var"@,
        "dev"@ != "sys"@,
        "dev"@ != "run"@,
        "dev"@ != "tmp"@,
        "dev"@ != "var"@,
        "sys"@ != "run"@,
        "sys"@ != "tmp"@,
        "sys"@ != "var"@,
        "run"@ != "tmp"@,
        "run"@ != "var"@,
        "tmp"@ != "var"@,
        "pts"@ != "shm"@,
        "pts"@ != "mqueue"@,
        "shm"@ != "mqueue"@,
{
    reveal_strlit("proc");
    reveal_strlit("dev");
    reveal_strlit("sys");
    reveal_strlit("run");
    reveal_strlit("tmp");
    reveal_strlit("var");
    reveal_strlit("pts");
    reveal_strlit("shm");
    reveal_strlit("mqueue");
    assert("proc"@.len() != "dev"@.len());
    assert("proc"@.len() != "sys"@.len());
    assert("proc"@.len() != "run"@.len());
    assert("proc"@.len() != "tmp"@.len());
    assert("proc"@.len() != "var"@.len());
    assert("dev"@[0] != "sys"@[0]);
    assert("dev"@[0] != "run"@[0]);
    assert("dev"@[0] != "tmp"@[0]);
    assert("dev"@[0] != "var"@[0]);
    assert("sys"@[0] != "run"@[0]);
    assert("sys"@[0] != "tmp"@[0]);
    assert("sys"@[0] != "var"@[0]);
    assert("run"@[0] != "tmp"@[0]);
    assert("run"@[0] != "var"@[0]);
    assert("tmp"@[0] != "var"@[0]);
    assert("pts"@[0] != "shm"@[0]);
    assert("pts"@.len() != "mqueue"@.len());
    assert("shm"@.len() != "mqueue"@.len());
}

proof fn lemma_default_mounts_stand_apart()
    ensures
        stand_apart(default_mount_list()),
{
    lemma_places();
    lemma_names_differ();
    let d = default_mount_list();
    assert forall|i: int, j: int| 0 <= i < j < d.len() implies !same_path(
        #[trigger] d[i].destination,
        #[trigger] d[j].destination,
    ) by {
        let a = components(d[i].destination);
        let b = components(d[j].destination);
        if same_path(d[i].destination, d[j].destination) {
            assert(a.len() == b.len());
            assert(a[0] == b[0]);
            assert(a.len() > 1 ==> a[1] == b[1]);
            assert(false);
        }
    }
}

proof fn lemma_with_tmpfs_stands_apart(mounts: Seq<MountView>, places: Seq<Seq<char>>, systemd: bool)
    requires
        stand_apart(mounts),
    ensures
        stand_apart(with_tmpfs(mounts, places, systemd)),
    decreases places.len(),
{
    if places.len() > 0 {
        lemma_with_tmpfs_stands_apart(mounts, places.drop_last(), systemd);
        law_replacing_keeps_apart(
            with_tmpfs(mounts, places.drop_last(), systemd),
            tmpfs_mount(places.last(), systemd),
        );
    }
}

/// Law: of the mounts that a container has before any is asked for by name, no two stand at the
/// same place.
pub proof fn law_system_mounts_stand_apart(read_only: bool, systemd: bool)
    ensures
        stand_apart(system_mount_list(read_only, systemd)),
{
    lemma_default_mounts_stand_apart();
    let places = tmpfs_places(read_only, systemd);
    lemma_with_tmpfs_stands_apart(default_mount_list(), places, systemd);
    let mounts = with_tmpfs(default_mount_list(), places, systemd);
    law_replacing_keeps_apart(mounts, cgroup_mount());
}

proof fn lemma_tmpfs_is_there(
    mounts: Seq<MountView>,
    places: Seq<Seq<char>>,
    systemd: bool,
    i: int,
)
    requires
        0 <= i < places.len(),
        forall|a: int, b: int|
            0 <= a < b < places.len() ==> !same_path(#[trigger] places[a], #[trigger] places[b]),
    ensures
        with_tmpfs(mounts, places, systemd).contains(tmpfs_mount(places[i], systemd)),
    decreases places.len(),
{
    let front = places.drop_last();
    let before = with_tmpfs(mounts, front, systemd);
    let m = tmpfs_mount(places.last(), systemd);
    law_replacing_clears_the_place(before, m);
    let r = replaced(before, m);
    if i < places.len() - 1 {
        assert forall|a: int, b: int| 0 <= a < b < front.len() implies !same_path(
            #[trigger] front[a],
            #[trigger] front[b],
        ) by {
            assert(front[a] == places[a] && front[b] == places[b]);
        }
        lemma_tmpfs_is_there(mounts, front, systemd, i);
        assert(front[i] == places[i]);
        assert(places.last() == places[places.len() - 1]);
    } else {
        assert(r[r.len() - 1] == m);
    }
}

/// Law: each place that is to stay writable has its tmpfs, and under systemd the control groups
/// are writable.
pub proof fn law_writable_places_are_mounted(read_only: bool, systemd: bool, i: int)
    requires
        0 <= i < tmpfs_places(read_only, systemd).len(),
    ensures
        system_mount_list(read_only, systemd).contains(
            tmpfs_mount(tmpfs_places(read_only, systemd)[i], systemd),
        ),
        systemd ==> system_mount_list(read_only, systemd).contains(cgroup_mount()),
{
    lemma_places();
    lemma_names_differ();
    let places = tmpfs_places(read_only, systemd);
    assert forall|a: int, b: int| 0 <= a < b < places.len() implies !same_path(
        #[trigger] places[a],
        #[trigger] places[b],
    ) by {
        let x = components(places[a]);
        let y = components(places[b]);
        if same_path(places[a], places[b]) {
            assert(x.len() == y.len());
            assert(x[0] == y[0]);
            assert(false);
        }
    }
    lemma_tmpfs_is_there(default_mount_list(), places, systemd, i);
    if systemd {
        let mounts = with_tmpfs(default_mount_list(), places, systemd);
        law_replacing_clears_the_place(mounts, cgroup_mount());
        let r = replaced(mounts, cgroup_mount());
        assert(r[r.len() - 1] == cgroup_mount());
        assert(!same_path(places[i], "/sys/fs/cgroup"@)) by {
            if same_path(places[i], "/sys/fs/cgroup"@) {
                assert(components(places[i])[0] == components("/sys/fs/cgroup"@)[0]);
                assert(false);
            }
        }
    }
}

/// Law: replacing a mount leaves the others in their order and puts the new one behind them.
pub proof fn law_replacing_keeps_the_order(mounts: Seq<MountView>, m: MountView)
    ensures
        replaced(mounts, m) == mounts.filter(
            |n: MountView| !same_path(n.destination, m.destination),
        ).push(m),
{
    lemma_elsewhere_is_filter(mounts, m.destination);
}

proof fn lemma_elsewhere_is_filter(mounts: Seq<MountView>, place: Seq<char>)
    ensures
        elsewhere(mounts, place) == mounts.filter(
            |n: MountView| !same_path(n.destination, place),
        ),
    decreases mounts.len(),
{
    let f = |n: MountView| !same_path(n.destination, place);
    reveal(Seq::filter);
    if mounts.len() > 0 {
        lemma_elsewhere_is_filter(mounts.drop_last(), place);
    } else {
        assert(mounts.filter(f) =~= seq![]);
    }
}

/// Law: a container that is neither read-only nor set up for systemd has these mounts and no
/// other before any is asked for by name.
pub proof fn law_ordinary_system_mounts()
    ensures
        system_mount_list(false, false) == seq![
            MountView {
                destination: "/proc"@,
                typ: Some("proc"@),
                source: Some("proc"@),
                options: None,
            },
            MountView {
                destination: "/dev"@,
                typ: Some("tmpfs"@),
                source: Some("tmpfs"@),
                options: Some(seq!["nosuid"@, "strictatime"@, "mode=755"@, "size=65536k"@]),
            },
            MountView {
                destination: "/dev/pts"@,
                typ: Some("devpts"@),
                source: Some("devpts"@),
                options: Some(
                    seq![
                        "nosuid"@,
                        "noexec"@,
                        "newinstance"@,
                        "ptmxmode=0666"@,
                        "mode=0620"@,
                        "gid=5"@,
                    ],
                ),
            },
            MountView {
                destination: "/dev/shm"@,
                typ: Some("tmpfs"@),
                source: Some("shm"@),
                options: Some(seq!["nosuid"@, "noexec"@, "nodev"@, "mode=1777"@, "size=65536k"@]),
            },
            MountView {
                destination: "/dev/mqueue"@,
                typ: Some("mqueue"@),
                source: Some("mqueue"@),
                options: Some(seq!["nosuid"@, "noexec"@, "nodev"@]),
            },
            MountView {
                destination: "/sys"@,
                typ: Some("sysfs"@),
                source: Some("sysfs"@),
                options: Some(seq!["nosuid"@, "noexec"@, "nodev"@, "ro"@]),
            },
            MountView {
                destination: "/sys/fs/cgroup"@,
                typ: Some("cgroup"@),
                source: Some("cgroup"@),
                options: Some(seq!["nosuid"@, "noexec"@, "nodev"@, "relatime"@, "ro"@]),
            },
        ],
{
}

/// Whether a place is to be writable: one that programs expect to write though the root file
/// system is read-only, or one that systemd writes.
pub open spec fn stays_writable(read_only: bool, systemd: bool, place: Seq<char>) -> bool {
    ||| read_only && (place == "/dev/shm"@ || place == "/var/tmp"@)
    ||| systemd && (place == "/run/lock"@ || place == "/var/log/journal"@)
    ||| (read_only || systemd) && (place == "/run"@ || place == "/tmp"@)
}

/// Law: every place that is to be writable has a tmpfs, with the options that go with systemd or
/// those that go without it; under systemd the control groups are writable too. Every other mount
/// is one that an ordinary container has.
pub proof fn law_system_mounts_are_what_is_needed(read_only: bool, systemd: bool)
    ensures
        forall|place: Seq<char>| #[trigger]
            stays_writable(read_only, systemd, place) ==> system_mount_list(
                read_only,
                systemd,
            ).contains(
                MountView {
                    destination: place,
                    typ: Some("tmpfs"@),
                    source: Some("tmpfs"@),
                    options: Some(
                        if systemd {
                            seq!["rw"@, "rprivate"@, "nosuid"@, "nodev"@, "tmpcopyup"@]
                        } else {
                            seq!["nosuid"@, "nodev"@, "mode=1777"@]
                        },
                    ),
                },
            ),
        systemd ==> system_mount_list(read_only, systemd).contains(
            MountView {
                destination: "/sys/fs/cgroup"@,
                typ: Some("cgroup"@),
                source: Some("cgroup"@),
                options: Some(seq!["private"@, "rw"@]),
            },
        ),
        forall|m: MountView| #[trigger]
            system_mount_list(read_only, systemd).contains(m) ==> system_mount_list(
                false,
                false,
            ).contains(m) || stays_writable(read_only, systemd, m.destination) || systemd
                && m.destination == "/sys/fs/cgroup"@,
        forall|m: MountView| #[trigger]
            system_mount_list(false, false).contains(m) && !stays_writable(
                read_only,
                systemd,
                m.destination,
            ) && !(systemd && m.destination == "/sys/fs/cgroup"@) ==> system_mount_list(
                read_only,
                systemd,
            ).contains(m),
{
    let places = tmpfs_places(read_only, systemd);
    let list = system_mount_list(read_only, systemd);
    let base = default_mount_list();
    assert forall|place: Seq<char>| #[trigger]
        stays_writable(read_only, systemd, place) <==> places.contains(place) by {
        if stays_writable(read_only, systemd, place) {
            if read_only && systemd {
                assert(places[0] == "/dev/shm"@ && places[1] == "/run"@ && places[2] == "/tmp"@);
                assert(places[3] == "/var/tmp"@ && places[4] == "/run/lock"@ && places[5]
                    == "/var/log/journal"@);
            } else if read_only {
                assert(places[0] == "/dev/shm"@ && places[1] == "/run"@ && places[2] == "/tmp"@
                    && places[3] == "/var/tmp"@);
            } else {
                assert(places[0] == "/run"@ && places[1] == "/run/lock"@ && places[2] == "/tmp"@
                    && places[3] == "/var/log/journal"@);
            }
        }
    }
    assert forall|place: Seq<char>| #[trigger]
        stays_writable(read_only, systemd, place) implies list.contains(
        tmpfs_mount(place, systemd),
    ) by {
        let i = choose|i: int| 0 <= i < places.len() && places[i] == place;
        law_writable_places_are_mounted(read_only, systemd, i);
    }
    if systemd {
        assert(places.len() > 0);
        law_writable_places_are_mounted(read_only, systemd, 0);
    }
    lemma_with_tmpfs_members(base, places, systemd);
    let mounts = with_tmpfs(base, places, systemd);
    assert(system_mount_list(false, false) =~= base);
    lemma_elsewhere(mounts, "/sys/fs/cgroup"@);
    law_replacing_clears_the_place(mounts, cgroup_mount());
    assert forall|m: MountView| #[trigger] list.contains(m) implies base.contains(m)
        || stays_writable(read_only, systemd, m.destination) || systemd && m.destination
        == "/sys/fs/cgroup"@ by {
        if systemd {
            let kept = elsewhere(mounts, "/sys/fs/cgroup"@);
            let k = choose|k: int| 0 <= k < list.len() && list[k] == m;
            if k < kept.len() {
                assert(kept[k] == m);
                assert(kept.contains(m));
                assert(mounts.contains(m));
            }
        }
    }
    lemma_places();
    lemma_names_differ();
    assert forall|m: MountView| #[trigger]
        base.contains(m) && !stays_writable(read_only, systemd, m.destination) && !(systemd
            && m.destination == "/sys/fs/cgroup"@) implies list.contains(m) by {
        let b = choose|b: int| 0 <= b < base.len() && base[b] == m;
        lemma_default_places_differ(read_only, systemd, b);
        assert(mounts.contains(m));
    }
}

/// What stands at none of some places stays when a tmpfs is put at each of them, and what is there
/// in the end was there before or stands at one of them.
proof fn lemma_with_tmpfs_members(mounts: Seq<MountView>, places: Seq<Seq<char>>, systemd: bool)
    ensures
        forall|m: MountView| #[trigger]
            with_tmpfs(mounts, places, systemd).contains(m) ==> mounts.contains(m)
                || places.contains(m.destination),
        forall|m: MountView| #[trigger]
            mounts.contains(m) && (forall|i: int|
                0 <= i < places.len() ==> !same_path(m.destination, #[trigger] places[i]))
                ==> with_tmpfs(mounts, places, systemd).contains(m),
    decreases places.len(),
{
    if places.len() > 0 {
        let front = places.drop_last();
        let before = with_tmpfs(mounts, front, systemd);
        let t = tmpfs_mount(places.last(), systemd);
        let r = with_tmpfs(mounts, places, systemd);
        lemma_with_tmpfs_members(mounts, front, systemd);
        lemma_elsewhere(before, t.destination);
        law_replacing_clears_the_place(before, t);
        assert(places.last() == places[places.len() - 1]);
        assert forall|m: MountView| #[trigger] r.contains(m) implies mounts.contains(m)
            || places.contains(m.destination) by {
            let kept = elsewhere(before, t.destination);
            let k = choose|k: int| 0 <= k < r.len() && r[k] == m;
            if k < kept.len() {
                assert(kept[k] == m);
                assert(kept.contains(m));
                assert(before.contains(m));
                if front.contains(m.destination) {
                    let j = choose|j: int| 0 <= j < front.len() && front[j] == m.destination;
                    assert(places[j] == m.destination);
                }
            } else {
                assert(places[places.len() - 1] == m.destination);
            }
        }
        assert forall|m: MountView| #[trigger]
            mounts.contains(m) && (forall|i: int|
                0 <= i < places.len() ==> !same_path(
                    m.destination,
                    #[trigger] places[i],
                )) implies r.contains(m) by {
            assert forall|i: int| 0 <= i < front.len() implies !same_path(
                m.destination,
                #[trigger] front[i],
            ) by {
                assert(front[i] == places[i]);
            }
            assert(before.contains(m));
        }
    }
}

proof fn lemma_default_places_differ(read_only: bool, systemd: bool, b: int)
    requires
        0 <= b < default_mount_list().len(),
        !stays_writable(read_only, systemd, default_mount_list()[b].destination),
    ensures
        forall|i: int|
            0 <= i < tmpfs_places(read_only, systemd).len() ==> !same_path(
                default_mount_list()[b].destination,
                #[trigger] tmpfs_places(read_only, systemd)[i],
            ),
        default_mount_list()[b].destination != "/sys/fs/cgroup"@ ==> !same_path(
            default_mount_list()[b].destination,
            "/sys/fs/cgroup"@,
        ),
{
    lemma_places();
    lemma_names_differ();
    let places = tmpfs_places(read_only, systemd);
    let d = default_mount_list()[b].destination;
    assert forall|i: int| 0 <= i < places.len() implies !same_path(d, #[trigger] places[i]) by {
        if same_path(d, places[i]) {
            let x = components(d);
            let y = components(places[i]);
            assert(x.len() == y.len());
            assert(x[0] == y[0]);
            if x.len() == 2 {
                assert(x[1] == y[1]);
            }
            assert(false);
        }
    }
    if d != "/sys/fs/cgroup"@ && same_path(d, "/sys/fs/cgroup"@) {
        assert(components(d).len() == 3);
        assert(false);
    }
}

/// Law: a volume is bound where it was asked for, from where it was asked for, and is read-only
/// where that was asked for.
pub proof fn law_volume_mounts(volumes: Seq<VolumeView>, i: int)
    requires
        0 <= i < volumes.len(),
    ensures
        volume_mount_list(volumes).len() == volumes.len(),
        volume_mount_list(volumes)[i].destination == volumes[i].container,
        volume_mount_list(volumes)[i].source == Some(volumes[i].host),
        volume_mount_list(volumes)[i].typ == Some("none"@),
        volume_mount_list(volumes)[i].options == if volumes[i].read_only {
            Some(seq!["rbind"@, "ro"@])
        } else {
            Some(seq!["rbind"@])
        },
{
}

/// Law: a device is bound where it was asked for, from where it was asked for. For an ordinary
/// user the mount is writable exactly where the permissions hold a `w`.
pub proof fn law_device_mounts(devices: Seq<DeviceView>, rootless: bool, i: int)
    requires
        0 <= i < devices.len(),
    ensures
        device_mount_list(devices, rootless).len() == devices.len(),
        device_mount_list(devices, rootless)[i].destination == devices[i].dst,
        device_mount_list(devices, rootless)[i].source == Some(devices[i].src),
        device_mount_list(devices, rootless)[i].typ == Some("none"@),
        device_mount_list(devices, false)[i].options == Some(seq!["rbind"@]),
        device_mount_list(devices, true)[i].options == Some(
            seq![
                "rbind"@,
                "nosuid"@,
                "noexec"@,
                if devices[i].perms.contains('w') {
                    "rw"@
                } else {
                    "ro"@
                },
            ],
        ),
{
}

} // verus!
