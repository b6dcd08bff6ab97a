//! Linux capabilities: their names, and the set that a container gets.
use vstd::prelude::*;
use vstd::string::*;

use crate::error::{seen, RunError, RunErrorView};
use crate::text::{concat2, same_ignoring_case, starts_with, uppercase};
use crate::text::{texts, upper_text};

verus! {

/// A Linux capability.
#[derive(Clone, Copy, Debug, PartialEq, Eq, Structural)]
pub enum Capability {
    AuditControl,
    AuditRead,
    AuditWrite,
    BlockSuspend,
    Bpf,
    CheckpointRestore,
    Chown,
    DacOverride,
    DacReadSearch,
    Fowner,
    Fsetid,
    IpcLock,
    IpcOwner,
    Kill,
    Lease,
    LinuxImmutable,
    MacAdmin,
    MacOverride,
    Mknod,
    NetAdmin,
    NetBindService,
    NetBroadcast,
    NetRaw,
    Perfmon,
    Setgid,
    Setfcap,
    Setpcap,
    Setuid,
    SysAdmin,
    SysBoot,
    SysChroot,
    SysModule,
    SysNice,
    SysPacct,
    SysPtrace,
    SysRawio,
    SysResource,
    SysTime,
    SysTtyConfig,
    Syslog,
    WakeAlarm,
}

impl Capability {
    /// The name of a capability, without the prefix that the kernel's headers use.
    pub open spec fn spec_name(self) -> Seq<char> {
        match self {
            Capability::AuditControl => "AUDIT_CONTROL"@,
            Capability::AuditRead => "AUDIT_READ"@,
            Capability::AuditWrite => "AUDIT_WRITE"@,
            Capability::BlockSuspend => "BLOCK_SUSPEND"@,
            Capability::Bpf => "BPF"@,
            Capability::CheckpointRestore => "CHECKPOINT_RESTORE"@,
            Capability::Chown => "CHOWN"@,
            Capability::DacOverride => "DAC_OVERRIDE"@,
            Capability::DacReadSearch => "DAC_READ_SEARCH"@,
            Capability::Fowner => "FOWNER"@,
            Capability::Fsetid => "FSETID"@,
            Capability::IpcLock => "IPC_LOCK"@,
            Capability::IpcOwner => "IPC_OWNER"@,
            Capability::Kill => "KILL"@,
            Capability::Lease => "LEASE"@,
            Capability::LinuxImmutable => "LINUX_IMMUTABLE"@,
            Capability::MacAdmin => "MAC_ADMIN"@,
            Capability::MacOverride => "MAC_OVERRIDE"@,
            Capability::Mknod => "MKNOD"@,
            Capability::NetAdmin => "NET_ADMIN"@,
            Capability::NetBindService => "NET_BIND_SERVICE"@,
            Capability::NetBroadcast => "NET_BROADCAST"@,
            Capability::NetRaw => "NET_RAW"@,
            Capability::Perfmon => "PERFMON"@,
            Capability::Setgid => "SETGID"@,
            Capability::Setfcap => "SETFCAP"@,
            Capability::Setpcap => "SETPCAP"@,
            Capability::Setuid => "SETUID"@,
            Capability::SysAdmin => "SYS_ADMIN"@,
            Capability::SysBoot => "SYS_BOOT"@,
            Capability::SysChroot => "SYS_CHROOT"@,
            Capability::SysModule => "SYS_MODULE"@,
            Capability::SysNice => "SYS_NICE"@,
            Capability::SysPacct => "SYS_PACCT"@,
            Capability::SysPtrace => "SYS_PTRACE"@,
            Capability::SysRawio => "SYS_RAWIO"@,
            Capability::SysResource => "SYS_RESOURCE"@,
            Capability::SysTime => "SYS_TIME"@,
            Capability::SysTtyConfig => "SYS_TTY_CONFIG"@,
            Capability::Syslog => "SYSLOG"@,
            Capability::WakeAlarm => "WAKE_ALARM"@,
        }
    }

    /// The place of a capability in the list above, counted from zero.
    pub open spec fn number(self) -> nat {
        match self {
            Capability::AuditControl => 0,
            Capability::AuditRead => 1,
            Capability::AuditWrite => 2,
            Capability::BlockSuspend => 3,
            Capability::Bpf => 4,
            Capability::CheckpointRestore => 5,
            Capability::Chown => 6,
            Capability::DacOverride => 7,
            Capability::DacReadSearch => 8,
            Capability::Fowner => 9,
            Capability::Fsetid => 10,
            Capability::IpcLock => 11,
            Capability::IpcOwner => 12,
            Capability::Kill => 13,
            Capability::Lease => 14,
            Capability::LinuxImmutable => 15,
            Capability::MacAdmin => 16,
            Capability::MacOverride => 17,
            Capability::Mknod => 18,
            Capability::NetAdmin => 19,
            Capability::NetBindService => 20,
            Capability::NetBroadcast => 21,
            Capability::NetRaw => 22,
            Capability::Perfmon => 23,
            Capability::Setgid => 24,
            Capability::Setfcap => 25,
            Capability::Setpcap => 26,
            Capability::Setuid => 27,
            Capability::SysAdmin => 28,
            Capability::SysBoot => 29,
            Capability::SysChroot => 30,
            Capability::SysModule => 31,
            Capability::SysNice => 32,
            Capability::SysPacct => 33,
            Capability::SysPtrace => 34,
            Capability::SysRawio => 35,
            Capability::SysResource => 36,
            Capability::SysTime => 37,
            Capability::SysTtyConfig => 38,
            Capability::Syslog => 39,
            Capability::WakeAlarm => 40,
        }
    }

    /// The name of a capability, without prefix.
    pub fn name(self) -> (r: &'static str)
        ensures
            r@ == self.spec_name(),
    {
        match self {
            Capability::AuditControl => "AUDIT_CONTROL",
            Capability::AuditRead => "AUDIT_READ",
            Capability::AuditWrite => "AUDIT_WRITE",
            Capability::BlockSuspend => "BLOCK_SUSPEND",
            Capability::Bpf => "BPF",
            Capability::CheckpointRestore => "CHECKPOINT_RESTORE",
            Capability::Chown => "CHOWN",
            Capability::DacOverride => "DAC_OVERRIDE",
            Capability::DacReadSearch => "DAC_READ_SEARCH",
            Capability::Fowner => "FOWNER",
            Capability::Fsetid => "FSETID",
            Capability::IpcLock => "IPC_LOCK",
            Capability::IpcOwner => "IPC_OWNER",
            Capability::Kill => "KILL",
            Capability::Lease => "LEASE",
            Capability::LinuxImmutable => "LINUX_IMMUTABLE",
            Capability::MacAdmin => "MAC_ADMIN",
            Capability::MacOverride => "MAC_OVERRIDE",
            Capability::Mknod => "MKNOD",
            Capability::NetAdmin => "NET_ADMIN",
            Capability::NetBindService => "NET_BIND_SERVICE",
            Capability::NetBroadcast => "NET_BROADCAST",
            Capability::NetRaw => "NET_RAW",
            Capability::Perfmon => "PERFMON",
            Capability::Setgid => "SETGID",
            Capability::Setfcap => "SETFCAP",
            Capability::Setpcap => "SETPCAP",
            Capability::Setuid => "SETUID",
            Capability::SysAdmin => "SYS_ADMIN",
            Capability::SysBoot => "SYS_BOOT",
            Capability::SysChroot => "SYS_CHROOT",
            Capability::SysModule => "SYS_MODULE",
            Capability::SysNice => "SYS_NICE",
            Capability::SysPacct => "SYS_PACCT",
            Capability::SysPtrace => "SYS_PTRACE",
            Capability::SysRawio => "SYS_RAWIO",
            Capability::SysResource => "SYS_RESOURCE",
            Capability::SysTime => "SYS_TIME",
            Capability::SysTtyConfig => "SYS_TTY_CONFIG",
            Capability::Syslog => "SYSLOG",
            Capability::WakeAlarm => "WAKE_ALARM",
        }
    }

    /// The name of a capability as the kernel's headers write it.
    pub fn label(self) -> (r: String)
        ensures
            r@ == "CAP_"@ + self.spec_name(),
    {
        concat2("CAP_", self.name())
    }

    /// The capability at a place in the list.
    fn from_number(n: u8) -> (r: Option<Capability>)
        ensures
            match r {
                Some(c) => c.number() == n,
                None => forall|c: Capability| c.number() != n,
            },
    {
        match n {
            0 => Some(Capability::AuditControl),
            1 => Some(Capability::AuditRead),
            2 => Some(Capability::AuditWrite),
            3 => Some(Capability::BlockSuspend),
            4 => Some(Capability::Bpf),
            5 => Some(Capability::CheckpointRestore),
            6 => Some(Capability::Chown),
            7 => Some(Capability::DacOverride),
            8 => Some(Capability::DacReadSearch),
            9 => Some(Capability::Fowner),
            10 => Some(Capability::Fsetid),
            11 => Some(Capability::IpcLock),
            12 => Some(Capability::IpcOwner),
            13 => Some(Capability::Kill),
            14 => Some(Capability::Lease),
            15 => Some(Capability::LinuxImmutable),
            16 => Some(Capability::MacAdmin),
            17 => Some(Capability::MacOverride),
            18 => Some(Capability::Mknod),
            19 => Some(Capability::NetAdmin),
            20 => Some(Capability::NetBindService),
            21 => Some(Capability::NetBroadcast),
            22 => Some(Capability::NetRaw),
            23 => Some(Capability::Perfmon),
            24 => Some(Capability::Setgid),
            25 => Some(Capability::Setfcap),
            26 => Some(Capability::Setpcap),
            27 => Some(Capability::Setuid),
            28 => Some(Capability::SysAdmin),
            29 => Some(Capability::SysBoot),
            30 => Some(Capability::SysChroot),
            31 => Some(Capability::SysModule),
            32 => Some(Capability::SysNice),
            33 => Some(Capability::SysPacct),
            34 => Some(Capability::SysPtrace),
            35 => Some(Capability::SysRawio),
            36 => Some(Capability::SysResource),
            37 => Some(Capability::SysTime),
            38 => Some(Capability::SysTtyConfig),
            39 => Some(Capability::Syslog),
            40 => Some(Capability::WakeAlarm),
            _ => None,
        }
    }
}

/// Reads a name with `oci_spec`'s `Capability::from_str`, and hands the variant on as its place in
/// that enum.
///
/// The clause says that each name without prefix, in upper case, gives the place of its
/// capability in that enum, whose variants stand in the order of the list above, and that every
/// other text is refused.
#[verifier::external_body]
fn oci_capability_number(name: &str) -> (r: Option<u8>)
    ensures
        match r {
            Some(n) => exists|c: Capability| #[trigger] c.spec_name() == name@ && c.number() == n,
            None => forall|c: Capability| #[trigger] c.spec_name() != name@,
        },
{
    match name.parse::<oci_spec::runtime::Capability>() {
        Ok(c) => Some(c as u8),
        Err(_) => None,
    }
}

// ---------------------------------------------------------------------------------------
// Names

/// What sets each name apart from the others.
spec fn name_key(s: Seq<char>) -> (nat, char, char) {
    (s.len(), s[0], s[(s.len() / 2) as int])
}

proof fn lemma_name_keys(c: Capability)
    ensures
        name_key(c.spec_name()) == match c {
            Capability::AuditControl => (13nat, 'A', 'C'),
            Capability::AuditRead => (10nat, 'A', '_'),
            Capability::AuditWrite => (11nat, 'A', '_'),
            Capability::BlockSuspend => (13nat, 'B', 'S'),
            Capability::Bpf => (3nat, 'B', 'P'),
            Capability::CheckpointRestore => (18nat, 'C', 'T'),
            Capability::Chown => (5nat, 'C', 'O'),
            Capability::DacOverride => (12nat, 'D', 'E'),
            Capability::DacReadSearch => (15nat, 'D', 'D'),
            Capability::Fowner => (6nat, 'F', 'N'),
            Capability::Fsetid => (6nat, 'F', 'T'),
            Capability::IpcLock => (8nat, 'I', 'L'),
            Capability::IpcOwner => (9nat, 'I', 'O'),
            Capability::Kill => (4nat, 'K', 'L'),
            Capability::Lease => (5nat, 'L', 'A'),
            Capability::LinuxImmutable => (15nat, 'L', 'M'),
            Capability::MacAdmin => (9nat, 'M', 'A'),
            Capability::MacOverride => (12nat, 'M', 'E'),
            Capability::Mknod => (5nat, 'M', 'N'),
            Capability::NetAdmin => (9nat, 'N', 'A'),
            Capability::NetBindService => (16nat, 'N', '_'),
            Capability::NetBroadcast => (13nat, 'N', 'O'),
            Capability::NetRaw => (7nat, 'N', '_'),
            Capability::Perfmon => (7nat, 'P', 'F'),
            Capability::Setgid => (6nat, 'S', 'G'),
            Capability::Setfcap => (7nat, 'S', 'F'),
            Capability::Setpcap => (7nat, 'S', 'P'),
            Capability::Setuid => (6nat, 'S', 'U'),
            Capability::SysAdmin => (9nat, 'S', 'A'),
            Capability::SysBoot => (8nat, 'S', 'B'),
            Capability::SysChroot => (10nat, 'S', 'H'),
            Capability::SysModule => (10nat, 'S', 'O'),
            Capability::SysNice => (8nat, 'S', 'N'),
            Capability::SysPacct => (9nat, 'S', 'P'),
            Capability::SysPtrace => (10nat, 'S', 'T'),
            Capability::SysRawio => (9nat, 'S', 'R'),
            Capability::SysResource => (12nat, 'S', 'S'),
            Capability::SysTime => (8nat, 'S', 'T'),
            Capability::SysTtyConfig => (14nat, 'S', '_'),
            Capability::Syslog => (6nat, 'S', 'L'),
            Capability::WakeAlarm => (10nat, 'W', 'A'),
        },
{
    reveal_strlit("AUDIT_CONTROL");
    reveal_strlit("AUDIT_READ");
    reveal_strlit("AUDIT_WRITE");
    reveal_strlit("BLOCK_SUSPEND");
    reveal_strlit("BPF");
    reveal_strlit("CHECKPOINT_RESTORE");
    reveal_strlit("CHOWN");
    reveal_strlit("DAC_OVERRIDE");
    reveal_strlit("DAC_READ_SEARCH");
    reveal_strlit("FOWNER");
    reveal_strlit("FSETID");
    reveal_strlit("IPC_LOCK");
    reveal_strlit("IPC_OWNER");
    reveal_strlit("KILL");
    reveal_strlit("LEASE");
    reveal_strlit("LINUX_IMMUTABLE");
    reveal_strlit("MAC_ADMIN");
    reveal_strlit("MAC_OVERRIDE");
    reveal_strlit("MKNOD");
    reveal_strlit("NET_ADMIN");
    reveal_strlit("NET_BIND_SERVICE");
    reveal_strlit("NET_BROADCAST");
    reveal_strlit("NET_RAW");
    reveal_strlit("PERFMON");
    reveal_strlit("SETGID");
    reveal_strlit("SETFCAP");
    reveal_strlit("SETPCAP");
    reveal_strlit("SETUID");
    reveal_strlit("SYS_ADMIN");
    reveal_strlit("SYS_BOOT");
    reveal_strlit("SYS_CHROOT");
    reveal_strlit("SYS_MODULE");
    reveal_strlit("SYS_NICE");
    reveal_strlit("SYS_PACCT");
    reveal_strlit("SYS_PTRACE");
    reveal_strlit("SYS_RAWIO");
    reveal_strlit("SYS_RESOURCE");
    reveal_strlit("SYS_TIME");
    reveal_strlit("SYS_TTY_CONFIG");
    reveal_strlit("SYSLOG");
    reveal_strlit("WAKE_ALARM");
}

/// Law: no two capabilities have the same name.
pub proof fn law_capability_names_differ(a: Capability, b: Capability)
    requires
        a.spec_name() == b.spec_name(),
    ensures
        a == b,
{
    lemma_name_keys(a);
    lemma_name_keys(b);
}

/// Upper case, and without the prefix `CAP_`.
pub open spec fn plain_name(s: Seq<char>) -> Seq<char> {
    let name = upper_text(s);
    if "CAP_"@.is_prefix_of(name) {
        name.skip(4)
    } else {
        name
    }
}

/// The capability that a text names, in any case, with the prefix `CAP_` or without.
pub open spec fn capability_value(s: Seq<char>) -> Option<Capability> {
    if exists|c: Capability| #[trigger] c.spec_name() == plain_name(s) {
        Some(choose|c: Capability| #[trigger] c.spec_name() == plain_name(s))
    } else {
        None
    }
}

/// What `capability_value` is: the one capability of that name.
pub proof fn lemma_capability_value(s: Seq<char>, c: Capability)
    ensures
        capability_value(s) == Some(c) <==> c.spec_name() == plain_name(s),
{
    if c.spec_name() == plain_name(s) {
        let d = choose|d: Capability| #[trigger] d.spec_name() == plain_name(s);
        law_capability_names_differ(c, d);
    } else if let Some(d) = capability_value(s) {
        assert(d.spec_name() == plain_name(s));
    }
}

/// Reads the name of a capability.
pub fn parse_capability(s: &str) -> (r: Result<Capability, RunError>)
    ensures
        match r {
            Ok(c) => capability_value(s@) == Some(c),
            Err(e) => capability_value(s@) is None && e@ == RunErrorView::UnknownCapability(s@),
        },
{
    let name = uppercase(s);
    let full: usize = name.as_str().unicode_len();
    proof {
        reveal_strlit("CAP_");
    }
    let plain = if starts_with(name.as_str(), "CAP_") {
        name.as_str().substring_char(4, full)
    } else {
        name.as_str()
    };
    assert(plain@ =~= plain_name(s@));
    match oci_capability_number(plain) {
        Some(n) => match Capability::from_number(n) {
            Some(c) => {
                proof {
                    let d = choose|d: Capability|
                        #[trigger] d.spec_name() == plain@ && d.number() == n;
                    assert(c == d);
                    lemma_capability_value(s@, c);
                }
                Ok(c)
            },
            None => {
                assert(false);
                Err(RunError::UnknownCapability(s.to_owned()))
            },
        },
        None => Err(RunError::UnknownCapability(s.to_owned())),
    }
}

// ---------------------------------------------------------------------------------------
// Sets

/// A set of capabilities.
pub struct CapabilitySet {
    items: Vec<Capability>,
}

impl View for CapabilitySet {
    type V = Set<Capability>;

    closed spec fn view(&self) -> Set<Capability> {
        self.items@.to_set()
    }
}

impl CapabilitySet {
    /// No capability stands in the list twice.
    #[verifier::type_invariant]
    spec fn holds_each_once(self) -> bool {
        self.items@.no_duplicates()
    }

    /// The empty set.
    pub fn empty() -> (r: CapabilitySet)
        ensures
            r@ == Set::<Capability>::empty(),
    {
        let items: Vec<Capability> = Vec::new();
        assert(items@.to_set() =~= Set::empty());
        CapabilitySet { items }
    }

    /// Whether `c` is in the set.
    pub fn contains(&self, c: Capability) -> (r: bool)
        ensures
            r == self@.contains(c),
    {
        let mut i: usize = 0;
        while i < self.items.len()
            invariant
                i <= self.items@.len(),
                forall|j: int| 0 <= j < i ==> self.items@[j] != c,
            decreases self.items@.len() - i,
        {
            if self.items[i] == c {
                return true;
            }
            i = i + 1;
        }
        false
    }

    /// The set with `c`.
    pub fn with(self, c: Capability) -> (r: CapabilitySet)
        ensures
            r@ == self@.insert(c),
    {
        proof {
            use_type_invariant(&self);
        }
        if self.contains(c) {
            assert(self@.insert(c) =~= self@);
            return self;
        }
        let ghost before = self.items@;
        let mut items = self.items;
        items.push(c);
        proof {
            assert(forall|d: Capability| items@.contains(d) <==> (before.contains(d) || d == c)) by {
                assert forall|d: Capability| before.contains(d) implies items@.contains(d) by {
                    let k = choose|k: int| 0 <= k < before.len() && before[k] == d;
                    assert(items@[k] == d);
                }
                assert(items@[before.len() as int] == c);
            }
            assert(items@.to_set() =~= before.to_set().insert(c));
        }
        CapabilitySet { items }
    }

    /// The set without `c`.
    pub fn without(self, c: Capability) -> (r: CapabilitySet)
        ensures
            r@ == self@.remove(c),
    {
        proof {
            use_type_invariant(&self);
        }
        let ghost before = self.items@;
        let mut items: Vec<Capability> = Vec::new();
        let mut i: usize = 0;
        while i < self.items.len()
            invariant
                before == self.items@,
                before.no_duplicates(),
                i <= before.len(),
                items@.no_duplicates(),
                forall|d: Capability| #[trigger]
                    items@.contains(d) <==> (before.take(i as int).contains(d) && d != c),
            decreases before.len() - i,
        {
            let d = self.items[i];
            let ghost kept = items@;
            assert(before.take(i + 1) =~= before.take(i as int).push(d));
            assert(!before.take(i as int).contains(d));
            if d != c {
                items.push(d);
                assert(!kept.contains(d));
                assert(items@.no_duplicates());
                assert forall|e: Capability| #[trigger]
                    items@.contains(e) <==> (kept.contains(e) || e == d) by {
                    if kept.contains(e) {
                        let k = choose|k: int| 0 <= k < kept.len() && kept[k] == e;
                        assert(items@[k] == e);
                    }
                    assert(items@[kept.len() as int] == d);
                }
            }
            assert forall|e: Capability| #[trigger]
                before.take(i + 1).contains(e) <==> (before.take(i as int).contains(e) || e
                    == d) by {
                let t = before.take(i as int);
                if t.contains(e) {
                    let k = choose|k: int| 0 <= k < t.len() && t[k] == e;
                    assert(before.take(i + 1)[k] == e);
                }
                assert(before.take(i + 1)[i as int] == d);
            }
            i = i + 1;
        }
        assert(before.take(i as int) =~= before);
        assert(items@.to_set() =~= before.to_set().remove(c));
        CapabilitySet { items }
    }

    /// The members of the set, each one once.
    pub fn members(&self) -> (r: Vec<Capability>)
        ensures
            r@.no_duplicates(),
            r@.to_set() == self@,
    {
        proof {
            use_type_invariant(self);
        }
        let mut r: Vec<Capability> = Vec::new();
        let mut i: usize = 0;
        while i < self.items.len()
            invariant
                i <= self.items@.len(),
                r@ == self.items@.take(i as int),
            decreases self.items@.len() - i,
        {
            r.push(self.items[i]);
            i = i + 1;
        }
        assert(r@ =~= self.items@);
        r
    }

    /// The same set once more.
    pub fn copy(&self) -> (r: CapabilitySet)
        ensures
            r@ == self@,
    {
        proof {
            use_type_invariant(self);
        }
        let items = self.members();
        assert(items@.to_set() =~= self@);
        CapabilitySet { items }
    }

    /// The set of the members of a list.
    fn of(list: Vec<Capability>) -> (r: CapabilitySet)
        ensures
            r@ == list@.to_set(),
    {
        let mut r = CapabilitySet::empty();
        let mut i: usize = 0;
        assert(list@.take(0).to_set() =~= Set::empty());
        while i < list.len()
            invariant
                i <= list@.len(),
                r@ == list@.take(i as int).to_set(),
            decreases list@.len() - i,
        {
            let ghost t = list@.take(i as int);
            let ghost u = list@.take(i + 1);
            r = r.with(list[i]);
            proof {
                assert(u =~= t.push(list@[i as int]));
                assert forall|d: Capability| u.to_set().contains(d) <==> #[trigger] t.to_set().insert(
                    list@[i as int],
                ).contains(d) by {
                    if t.contains(d) {
                        let k = choose|k: int| 0 <= k < t.len() && t[k] == d;
                        assert(u[k] == d);
                    }
                    assert(u[i as int] == list@[i as int]);
                }
                assert(u.to_set() =~= t.to_set().insert(list@[i as int]));
            }
            i = i + 1;
        }
        assert(list@.take(i as int) =~= list@);
        r
    }
}

/// The capabilities that a container gets where nothing else is asked for.
pub open spec fn is_default_capability(c: Capability) -> bool {
    match c {
        Capability::Chown => true,
        Capability::DacOverride => true,
        Capability::Fowner => true,
        Capability::Fsetid => true,
        Capability::Kill => true,
        Capability::NetBindService => true,
        Capability::Setfcap => true,
        Capability::Setgid => true,
        Capability::Setpcap => true,
        Capability::Setuid => true,
        Capability::SysChroot => true,
        _ => false,
    }
}

pub open spec fn default_set() -> Set<Capability> {
    Set::new(|c: Capability| is_default_capability(c))
}

/// The default capabilities. Podman's `containers.conf` has the same ones; Docker adds
/// `AUDIT_WRITE`, `MKNOD` and `NET_RAW`.
pub fn default_capabilities() -> (r: CapabilitySet)
    ensures
        r@ == default_set(),
{
    let list: Vec<Capability> = vec![
        Capability::Chown,
        Capability::DacOverride,
        Capability::Fowner,
        Capability::Fsetid,
        Capability::Kill,
        Capability::NetBindService,
        Capability::Setfcap,
        Capability::Setgid,
        Capability::Setpcap,
        Capability::Setuid,
        Capability::SysChroot,
    ];
    proof {
        assert forall|c: Capability| list@.to_set().contains(c) <==> #[trigger] default_set().contains(
            c,
        ) by {
            match c {
                Capability::Chown => assert(list@[0] == c),
                Capability::DacOverride => assert(list@[1] == c),
                Capability::Fowner => assert(list@[2] == c),
                Capability::Fsetid => assert(list@[3] == c),
                Capability::Kill => assert(list@[4] == c),
                Capability::NetBindService => assert(list@[5] == c),
                Capability::Setfcap => assert(list@[6] == c),
                Capability::Setgid => assert(list@[7] == c),
                Capability::Setpcap => assert(list@[8] == c),
                Capability::Setuid => assert(list@[9] == c),
                Capability::SysChroot => assert(list@[10] == c),
                _ => {},
            }
        }
        assert(list@.to_set() =~= default_set());
    }
    CapabilitySet::of(list)
}

/// Every capability.
pub fn all_capabilities() -> (r: CapabilitySet)
    ensures
        r@ == Set::<Capability>::full(),
{
    let list: Vec<Capability> = vec![
        Capability::AuditControl,
        Capability::AuditRead,
        Capability::AuditWrite,
        Capability::BlockSuspend,
        Capability::Bpf,
        Capability::CheckpointRestore,
        Capability::Chown,
        Capability::DacOverride,
        Capability::DacReadSearch,
        Capability::Fowner,
        Capability::Fsetid,
        Capability::IpcLock,
        Capability::IpcOwner,
        Capability::Kill,
        Capability::Lease,
        Capability::LinuxImmutable,
        Capability::MacAdmin,
        Capability::MacOverride,
        Capability::Mknod,
        Capability::NetAdmin,
        Capability::NetBindService,
        Capability::NetBroadcast,
        Capability::NetRaw,
        Capability::Perfmon,
        Capability::Setfcap,
        Capability::Setgid,
        Capability::Setpcap,
        Capability::Setuid,
        Capability::SysAdmin,
        Capability::SysBoot,
        Capability::SysChroot,
        Capability::SysModule,
        Capability::SysNice,
        Capability::SysPacct,
        Capability::SysPtrace,
        Capability::SysRawio,
        Capability::SysResource,
        Capability::SysTime,
        Capability::SysTtyConfig,
        Capability::Syslog,
        Capability::WakeAlarm,
    ];
    proof {
        assert forall|c: Capability| #[trigger] list@.to_set().contains(c) by {
            match c {
                Capability::AuditControl => assert(list@[0] == c),
                Capability::AuditRead => assert(list@[1] == c),
                Capability::AuditWrite => assert(list@[2] == c),
                Capability::BlockSuspend => assert(list@[3] == c),
                Capability::Bpf => assert(list@[4] == c),
                Capability::CheckpointRestore => assert(list@[5] == c),
                Capability::Chown => assert(list@[6] == c),
                Capability::DacOverride => assert(list@[7] == c),
                Capability::DacReadSearch => assert(list@[8] == c),
                Capability::Fowner => assert(list@[9] == c),
                Capability::Fsetid => assert(list@[10] == c),
                Capability::IpcLock => assert(list@[11] == c),
                Capability::IpcOwner => assert(list@[12] == c),
                Capability::Kill => assert(list@[13] == c),
                Capability::Lease => assert(list@[14] == c),
                Capability::LinuxImmutable => assert(list@[15] == c),
                Capability::MacAdmin => assert(list@[16] == c),
                Capability::MacOverride => assert(list@[17] == c),
                Capability::Mknod => assert(list@[18] == c),
                Capability::NetAdmin => assert(list@[19] == c),
                Capability::NetBindService => assert(list@[20] == c),
                Capability::NetBroadcast => assert(list@[21] == c),
                Capability::NetRaw => assert(list@[22] == c),
                Capability::Perfmon => assert(list@[23] == c),
                Capability::Setfcap => assert(list@[24] == c),
                Capability::Setgid => assert(list@[25] == c),
                Capability::Setpcap => assert(list@[26] == c),
                Capability::Setuid => assert(list@[27] == c),
                Capability::SysAdmin => assert(list@[28] == c),
                Capability::SysBoot => assert(list@[29] == c),
                Capability::SysChroot => assert(list@[30] == c),
                Capability::SysModule => assert(list@[31] == c),
                Capability::SysNice => assert(list@[32] == c),
                Capability::SysPacct => assert(list@[33] == c),
                Capability::SysPtrace => assert(list@[34] == c),
                Capability::SysRawio => assert(list@[35] == c),
                Capability::SysResource => assert(list@[36] == c),
                Capability::SysTime => assert(list@[37] == c),
                Capability::SysTtyConfig => assert(list@[38] == c),
                Capability::Syslog => assert(list@[39] == c),
                Capability::WakeAlarm => assert(list@[40] == c),
            }
        }
        assert(list@.to_set() =~= Set::full());
    }
    CapabilitySet::of(list)
}

// ---------------------------------------------------------------------------------------
// --privileged, --cap-add, --cap-drop

/// Whether a text stands for all capabilities.
pub open spec fn names_all(s: Seq<char>) -> bool {
    upper_text(s) == upper_text("ALL"@)
}

/// A set after the options that add to it, in their order; or the first one that names no
/// capability.
pub open spec fn after_adding(base: Set<Capability>, names: Seq<Seq<char>>) -> Result<
    Set<Capability>,
    RunErrorView,
>
    decreases names.len(),
{
    if names.len() == 0 {
        Ok(base)
    } else {
        match after_adding(base, names.drop_last()) {
            Err(e) => Err(e),
            Ok(set) => if names_all(names.last()) {
                Ok(Set::full())
            } else {
                match capability_value(names.last()) {
                    Some(c) => Ok(set.insert(c)),
                    None => Err(RunErrorView::UnknownCapability(names.last())),
                }
            },
        }
    }
}

/// A set after the options that drop from it, in their order; or the first one that names no
/// capability.
pub open spec fn after_dropping(base: Set<Capability>, names: Seq<Seq<char>>) -> Result<
    Set<Capability>,
    RunErrorView,
>
    decreases names.len(),
{
    if names.len() == 0 {
        Ok(base)
    } else {
        match after_dropping(base, names.drop_last()) {
            Err(e) => Err(e),
            Ok(set) => if names_all(names.last()) {
                Ok(Set::empty())
            } else {
                match capability_value(names.last()) {
                    Some(c) => Ok(set.remove(c)),
                    None => Err(RunErrorView::UnknownCapability(names.last())),
                }
            },
        }
    }
}

/// The capabilities of a container: all of them where it is privileged, else the default
/// ones, with what is added, and then without what is dropped.
pub open spec fn effective_set(
    privileged: bool,
    add: Seq<Seq<char>>,
    drop: Seq<Seq<char>>,
) -> Result<Set<Capability>, RunErrorView> {
    let base = if privileged {
        Set::full()
    } else {
        default_set()
    };
    match after_adding(base, add) {
        Err(e) => Err(e),
        Ok(set) => after_dropping(set, drop),
    }
}

proof fn lemma_adding_stays_refused(base: Set<Capability>, names: Seq<Seq<char>>, i: int)
    requires
        0 <= i <= names.len(),
        after_adding(base, names.take(i)) is Err,
    ensures
        after_adding(base, names) == after_adding(base, names.take(i)),
    decreases names.len(),
{
    if i < names.len() {
        assert(names.drop_last().take(i) =~= names.take(i));
        lemma_adding_stays_refused(base, names.drop_last(), i);
    } else {
        assert(names.take(i) =~= names);
    }
}

proof fn lemma_dropping_stays_refused(base: Set<Capability>, names: Seq<Seq<char>>, i: int)
    requires
        0 <= i <= names.len(),
        after_dropping(base, names.take(i)) is Err,
    ensures
        after_dropping(base, names) == after_dropping(base, names.take(i)),
    decreases names.len(),
{
    if i < names.len() {
        assert(names.drop_last().take(i) =~= names.take(i));
        lemma_dropping_stays_refused(base, names.drop_last(), i);
    } else {
        assert(names.take(i) =~= names);
    }
}

fn add_capabilities(base: CapabilitySet, names: &Vec<String>) -> (r: Result<CapabilitySet, RunError>)
    ensures
        seen(r) == after_adding(base@, texts(names@)),
{
    let ghost start = base@;
    let ghost all = texts(names@);
    let mut set = base;
    let mut i: usize = 0;
    while i < names.len()
        invariant
            start == base@,
            all == texts(names@),
            i <= names@.len(),
            after_adding(start, all.take(i as int)) == Ok::<Set<Capability>, RunErrorView>(set@),
        decreases names@.len() - i,
    {
        assert(all.take(i + 1).drop_last() =~= all.take(i as int));
        assert(all.take(i + 1).last() == names@[i as int]@);
        if same_ignoring_case(names[i].as_str(), "ALL") {
            set = all_capabilities();
        } else {
            match parse_capability(names[i].as_str()) {
                Ok(c) => {
                    set = set.with(c);
                },
                Err(e) => {
                    proof {
                        lemma_adding_stays_refused(start, all, i + 1);
                    }
                    return Err(e);
                },
            }
        }
        i = i + 1;
    }
    assert(all.take(i as int) =~= all);
    Ok(set)
}

fn drop_capabilities(base: CapabilitySet, names: &Vec<String>) -> (r: Result<
    CapabilitySet,
    RunError,
>)
    ensures
        seen(r) == after_dropping(base@, texts(names@)),
{
    let ghost start = base@;
    let ghost all = texts(names@);
    let mut set = base;
    let mut i: usize = 0;
    while i < names.len()
        invariant
            start == base@,
            all == texts(names@),
            i <= names@.len(),
            after_dropping(start, all.take(i as int)) == Ok::<Set<Capability>, RunErrorView>(set@),
        decreases names@.len() - i,
    {
        assert(all.take(i + 1).drop_last() =~= all.take(i as int));
        assert(all.take(i + 1).last() == names@[i as int]@);
        if same_ignoring_case(names[i].as_str(), "ALL") {
            set = CapabilitySet::empty();
        } else {
            match parse_capability(names[i].as_str()) {
                Ok(c) => {
                    set = set.without(c);
                },
                Err(e) => {
                    proof {
                        lemma_dropping_stays_refused(start, all, i + 1);
                    }
                    return Err(e);
                },
            }
        }
        i = i + 1;
    }
    assert(all.take(i as int) =~= all);
    Ok(set)
}

/// The capabilities of a container.
pub fn effective_capabilities(privileged: bool, cap_add: &Vec<String>, cap_drop: &Vec<String>) -> (r:
    Result<CapabilitySet, RunError>)
    ensures
        seen(r) == effective_set(privileged, texts(cap_add@), texts(cap_drop@)),
{
    let base = if privileged { all_capabilities() } else { default_capabilities() };
    let set = match add_capabilities(base, cap_add) {
        Ok(set) => set,
        Err(e) => {
            return Err(e);
        },
    };
    drop_capabilities(set, cap_drop)
}

// ---------------------------------------------------------------------------------------
// Laws

/// Law: the default capabilities are among all of them.
pub proof fn law_defaults_are_among_all()
    ensures
        default_set().subset_of(Set::<Capability>::full()),
{
}

/// Law: the name of a capability is read back as it, with the prefix and without, in any case.
pub proof fn law_capability_reads_back(c: Capability, s: Seq<char>)
    requires
        upper_text(s) == c.spec_name() || upper_text(s) == "CAP_"@ + c.spec_name(),
    ensures
        capability_value(s) == Some(c),
{
    reveal_strlit("CAP_");
    lemma_capability_value(s, c);
    lemma_name_keys(c);
    if upper_text(s) == "CAP_"@ + c.spec_name() {
        assert(upper_text(s).skip(4) =~= c.spec_name());
        assert("CAP_"@.is_prefix_of(upper_text(s))) by {
            assert("CAP_"@ =~= upper_text(s).subrange(0, 4));
        }
    } else {
        lemma_no_name_has_the_prefix(c);
    }
}

proof fn lemma_no_name_has_the_prefix(c: Capability)
    ensures
        !"CAP_"@.is_prefix_of(c.spec_name()),
{
    reveal_strlit("CAP_");
    reveal_strlit("CHECKPOINT_RESTORE");
    reveal_strlit("CHOWN");
    lemma_name_keys(c);
    if "CAP_"@.is_prefix_of(c.spec_name()) {
        let s = c.spec_name();
        assert(s.subrange(0, 4)[0] == s[0]);
        assert(s.subrange(0, 4)[1] == s[1]);
    }
}

/// Law: the case of a name does not matter.
pub proof fn law_capability_case_does_not_matter(s: Seq<char>, t: Seq<char>)
    requires
        upper_text(s) == upper_text(t),
    ensures
        capability_value(s) == capability_value(t),
        names_all(s) == names_all(t),
{
}

proof fn lemma_full_stays_full(names: Seq<Seq<char>>)
    ensures
        after_adding(Set::full(), names) matches Ok(set) ==> set == Set::<Capability>::full(),
    decreases names.len(),
{
    if names.len() > 0 {
        lemma_full_stays_full(names.drop_last());
        if let Some(c) = capability_value(names.last()) {
            assert(Set::<Capability>::full().insert(c) =~= Set::<Capability>::full());
        }
    }
}

/// Law: a privileged container from which nothing is dropped has every capability.
pub proof fn law_privileged_has_every_capability(add: Seq<Seq<char>>)
    ensures
        effective_set(true, add, seq![]) matches Ok(set) ==> set == Set::<Capability>::full(),
{
    lemma_full_stays_full(add);
}

/// Law: without options a container has the default capabilities.
pub proof fn law_no_options_gives_defaults()
    ensures
        effective_set(false, seq![], seq![]) == Ok::<Set<Capability>, RunErrorView>(default_set()),
{
}

proof fn lemma_dropping_only_removes(base: Set<Capability>, names: Seq<Seq<char>>)
    ensures
        after_dropping(base, names) matches Ok(set) ==> set.subset_of(base),
    decreases names.len(),
{
    if names.len() > 0 {
        lemma_dropping_only_removes(base, names.drop_last());
    }
}

proof fn lemma_dropped_is_gone(base: Set<Capability>, names: Seq<Seq<char>>, i: int, c: Capability)
    requires
        0 <= i < names.len(),
        names_all(names[i]) || capability_value(names[i]) == Some(c),
    ensures
        after_dropping(base, names) matches Ok(set) ==> !set.contains(c),
    decreases names.len(),
{
    if i < names.len() - 1 {
        lemma_dropped_is_gone(base, names.drop_last(), i, c);
    }
}

/// Law: what is dropped is gone, whatever was added and whether or not the container is
/// privileged; and dropping all leaves nothing.
pub proof fn law_dropped_is_gone(
    privileged: bool,
    add: Seq<Seq<char>>,
    drop: Seq<Seq<char>>,
    i: int,
)
    requires
        0 <= i < drop.len(),
    ensures
        effective_set(privileged, add, drop) matches Ok(set) ==> {
            &&& names_all(drop[i]) ==> set == Set::<Capability>::empty()
            &&& capability_value(drop[i]) matches Some(c) ==> !set.contains(c)
        },
{
    let base = if privileged {
        Set::full()
    } else {
        default_set()
    };
    if let Ok(added) = after_adding(base, add) {
        if let Some(c) = capability_value(drop[i]) {
            lemma_dropped_is_gone(added, drop, i, c);
        }
        if names_all(drop[i]) {
            if let Ok(set) = after_dropping(added, drop) {
                assert forall|c: Capability| !#[trigger] set.contains(c) by {
                    lemma_dropped_is_gone(added, drop, i, c);
                }
                assert(set =~= Set::<Capability>::empty());
            }
        }
    }
}

proof fn lemma_added_is_there(base: Set<Capability>, names: Seq<Seq<char>>, i: int, c: Capability)
    requires
        0 <= i < names.len(),
        names_all(names[i]) || capability_value(names[i]) == Some(c),
    ensures
        after_adding(base, names) matches Ok(set) ==> set.contains(c),
    decreases names.len(),
{
    if i < names.len() - 1 {
        lemma_added_is_there(base, names.drop_last(), i, c);
    }
}

proof fn lemma_not_dropped_stays(base: Set<Capability>, names: Seq<Seq<char>>, c: Capability)
    requires
        base.contains(c),
        forall|j: int|
            0 <= j < names.len() ==> !names_all(#[trigger] names[j]) && capability_value(names[j])
                != Some(c),
    ensures
        after_dropping(base, names) matches Ok(set) ==> set.contains(c),
    decreases names.len(),
{
    if names.len() > 0 {
        assert forall|j: int| 0 <= j < names.len() - 1 implies !names_all(
            #[trigger] names.drop_last()[j],
        ) && capability_value(names.drop_last()[j]) != Some(c) by {
            assert(names.drop_last()[j] == names[j]);
        }
        lemma_not_dropped_stays(base, names.drop_last(), c);
        assert(names.last() == names[names.len() - 1]);
    }
}

/// Law: what is added, by its name or with all the others, and not dropped is there.
pub proof fn law_added_is_there(
    privileged: bool,
    add: Seq<Seq<char>>,
    drop: Seq<Seq<char>>,
    i: int,
    c: Capability,
)
    requires
        0 <= i < add.len(),
        names_all(add[i]) || capability_value(add[i]) == Some(c),
        forall|j: int|
            0 <= j < drop.len() ==> !names_all(#[trigger] drop[j]) && capability_value(drop[j])
                != Some(c),
    ensures
        effective_set(privileged, add, drop) matches Ok(set) ==> set.contains(c),
{
    let base = if privileged {
        Set::full()
    } else {
        default_set()
    };
    lemma_added_is_there(base, add, i, c);
    if let Ok(added) = after_adding(base, add) {
        lemma_not_dropped_stays(added, drop, c);
    }
}

/// Whether an option names a capability, by its own name or with all the others.
pub open spec fn names(s: Seq<char>, c: Capability) -> bool {
    names_all(s) || capability_value(s) == Some(c)
}

/// Law: an option names a capability where it is, in any case, the name of the capability, the
/// name behind `CAP_`, or `ALL`.
pub proof fn law_what_an_option_names(s: Seq<char>, c: Capability)
    ensures
        names(s, c) <==> upper_text(s) == c.spec_name() || upper_text(s) == "CAP_"@
            + c.spec_name() || upper_text(s) == seq!['A', 'L', 'L'],
{
    reveal_strlit("CAP_");
    reveal_strlit("ALL");
    let u = upper_text(s);
    assert(upper_text("ALL"@) =~= seq!['A', 'L', 'L']);
    lemma_capability_value(s, c);
    if u == c.spec_name() || u == "CAP_"@ + c.spec_name() {
        law_capability_reads_back(c, s);
    }
    if c.spec_name() == plain_name(s) && "CAP_"@.is_prefix_of(u) {
        assert(u =~= "CAP_"@ + u.skip(4)) by {
            assert("CAP_"@ =~= u.subrange(0, 4));
            assert forall|i: int| 0 <= i < 4 implies #[trigger] u[i] == "CAP_"@[i] by {
                assert(u.subrange(0, 4)[i] == u[i]);
            }
        }
    }
}

/// Law: the default capabilities are the eleven with these names.
pub proof fn law_default_capabilities(c: Capability)
    ensures
        default_set().contains(c) <==> seq![
            "CHOWN"@,
            "DAC_OVERRIDE"@,
            "FOWNER"@,
            "FSETID"@,
            "KILL"@,
            "NET_BIND_SERVICE"@,
            "SETFCAP"@,
            "SETGID"@,
            "SETPCAP"@,
            "SETUID"@,
            "SYS_CHROOT"@,
        ].contains(c.spec_name()),
{
    let list = seq![
        "CHOWN"@,
        "DAC_OVERRIDE"@,
        "FOWNER"@,
        "FSETID"@,
        "KILL"@,
        "NET_BIND_SERVICE"@,
        "SETFCAP"@,
        "SETGID"@,
        "SETPCAP"@,
        "SETUID"@,
        "SYS_CHROOT"@,
    ];
    assert(list[0] == Capability::Chown.spec_name());
    assert(list[1] == Capability::DacOverride.spec_name());
    assert(list[2] == Capability::Fowner.spec_name());
    assert(list[3] == Capability::Fsetid.spec_name());
    assert(list[4] == Capability::Kill.spec_name());
    assert(list[5] == Capability::NetBindService.spec_name());
    assert(list[6] == Capability::Setfcap.spec_name());
    assert(list[7] == Capability::Setgid.spec_name());
    assert(list[8] == Capability::Setpcap.spec_name());
    assert(list[9] == Capability::Setuid.spec_name());
    assert(list[10] == Capability::SysChroot.spec_name());
    if list.contains(c.spec_name()) {
        let k = choose|k: int| 0 <= k < list.len() && list[k] == c.spec_name();
        if k == 0 {
            law_capability_names_differ(c, Capability::Chown);
        } else if k == 1 {
            law_capability_names_differ(c, Capability::DacOverride);
        } else if k == 2 {
            law_capability_names_differ(c, Capability::Fowner);
        } else if k == 3 {
            law_capability_names_differ(c, Capability::Fsetid);
        } else if k == 4 {
            law_capability_names_differ(c, Capability::Kill);
        } else if k == 5 {
            law_capability_names_differ(c, Capability::NetBindService);
        } else if k == 6 {
            law_capability_names_differ(c, Capability::Setfcap);
        } else if k == 7 {
            law_capability_names_differ(c, Capability::Setgid);
        } else if k == 8 {
            law_capability_names_differ(c, Capability::Setpcap);
        } else if k == 9 {
            law_capability_names_differ(c, Capability::Setuid);
        } else {
            law_capability_names_differ(c, Capability::SysChroot);
        }
    }
}

proof fn lemma_adding(base: Set<Capability>, add: Seq<Seq<char>>, c: Capability)
    ensures
        after_adding(base, add) matches Ok(set) ==> (set.contains(c) <==> base.contains(c)
            || exists|i: int| 0 <= i < add.len() && names(#[trigger] add[i], c)),
    decreases add.len(),
{
    if add.len() > 0 {
        let front = add.drop_last();
        lemma_adding(base, front, c);
        assert(add.last() == add[add.len() - 1]);
        if let Ok(set) = after_adding(base, add) {
            if exists|i: int| 0 <= i < add.len() && names(#[trigger] add[i], c) {
                let k = choose|k: int| 0 <= k < add.len() && names(#[trigger] add[k], c);
                if k < front.len() {
                    assert(names(front[k], c));
                }
            }
            if exists|i: int| 0 <= i < front.len() && names(#[trigger] front[i], c) {
                let k = choose|k: int| 0 <= k < front.len() && names(#[trigger] front[k], c);
                assert(names(add[k], c));
            }
            if names(add.last(), c) {
                assert(names(add[add.len() - 1], c));
            }
        }
    }
}

proof fn lemma_dropping(base: Set<Capability>, drop: Seq<Seq<char>>, c: Capability)
    ensures
        after_dropping(base, drop) matches Ok(set) ==> (set.contains(c) <==> base.contains(c)
            && forall|i: int| 0 <= i < drop.len() ==> !names(#[trigger] drop[i], c)),
    decreases drop.len(),
{
    if drop.len() > 0 {
        let front = drop.drop_last();
        lemma_dropping(base, front, c);
        assert(drop.last() == drop[drop.len() - 1]);
        if let Ok(set) = after_dropping(base, drop) {
            if forall|i: int| 0 <= i < drop.len() ==> !names(#[trigger] drop[i], c) {
                assert forall|i: int| 0 <= i < front.len() implies !names(
                    #[trigger] front[i],
                    c,
                ) by {
                    assert(front[i] == drop[i]);
                }
                assert(!names(drop[drop.len() - 1], c));
            }
            if set.contains(c) {
                assert forall|i: int| 0 <= i < drop.len() implies !names(
                    #[trigger] drop[i],
                    c,
                ) by {
                    if i < front.len() {
                        assert(!names(front[i], c));
                    }
                }
            }
        }
    }
}

/// Law: a container has exactly the capabilities that it has by default, or all where it is
/// privileged, and those that are added, without those that are dropped. Nothing is gained that
/// was not asked for, and nothing is lost that was not dropped.
pub proof fn law_capabilities_are_those_asked_for(
    privileged: bool,
    add: Seq<Seq<char>>,
    drop: Seq<Seq<char>>,
    c: Capability,
)
    ensures
        effective_set(privileged, add, drop) matches Ok(set) ==> (set.contains(c) <==> {
            &&& privileged || default_set().contains(c) || exists|i: int|
                0 <= i < add.len() && names(#[trigger] add[i], c)
            &&& forall|i: int| 0 <= i < drop.len() ==> !names(#[trigger] drop[i], c)
        }),
{
    let base = if privileged {
        Set::full()
    } else {
        default_set()
    };
    lemma_adding(base, add, c);
    if let Ok(set) = after_adding(base, add) {
        lemma_dropping(set, drop, c);
    }
}

/// Whether an option names anything.
pub open spec fn names_something(s: Seq<char>) -> bool {
    names_all(s) || capability_value(s) is Some
}

proof fn lemma_first_unknown(base: Set<Capability>, list: Seq<Seq<char>>, i: int)
    requires
        0 <= i <= list.len(),
        forall|j: int| 0 <= j < i ==> names_something(#[trigger] list[j]),
        i < list.len() ==> !names_something(list[i]),
    ensures
        i == list.len() ==> after_adding(base, list) is Ok && after_dropping(base, list) is Ok,
        i < list.len() ==> after_adding(base, list) == Err::<Set<Capability>, RunErrorView>(
            RunErrorView::UnknownCapability(list[i]),
        ) && after_dropping(base, list) == Err::<Set<Capability>, RunErrorView>(
            RunErrorView::UnknownCapability(list[i]),
        ),
    decreases list.len(),
{
    if list.len() > 0 {
        let front = list.drop_last();
        assert(list.last() == list[list.len() - 1]);
        assert forall|j: int| 0 <= j < i && j < front.len() implies names_something(
            #[trigger] front[j],
        ) by {
            assert(front[j] == list[j]);
        }
        if i < front.len() {
            assert(front[i] == list[i]);
            lemma_first_unknown(base, front, i);
        } else {
            lemma_first_unknown(base, front, front.len() as int);
            if i == list.len() {
                assert(names_something(list[list.len() - 1]));
            }
        }
    }
}

/// Law: the capabilities are refused exactly where an option names nothing, and the message names
/// the first such option, those that add before those that drop. `i` is its place among them, or
/// their number.
pub proof fn law_the_first_unknown_capability_is_refused(
    privileged: bool,
    add: Seq<Seq<char>>,
    drop: Seq<Seq<char>>,
    i: int,
)
    requires
        0 <= i <= add.len() + drop.len(),
        forall|j: int| 0 <= j < i ==> names_something(#[trigger] (add + drop)[j]),
        i < add.len() + drop.len() ==> !names_something((add + drop)[i]),
    ensures
        i == add.len() + drop.len() ==> effective_set(privileged, add, drop) is Ok,
        i < add.len() + drop.len() ==> effective_set(privileged, add, drop) == Err::<
            Set<Capability>,
            RunErrorView,
        >(RunErrorView::UnknownCapability((add + drop)[i])),
{
    let base = if privileged {
        Set::full()
    } else {
        default_set()
    };
    let n = add.len() as int;
    assert forall|j: int| 0 <= j < i && j < n implies names_something(#[trigger] add[j]) by {
        assert((add + drop)[j] == add[j]);
    }
    if i < n {
        lemma_first_unknown(base, add, i);
    } else {
        lemma_first_unknown(base, add, n);
        let set = after_adding(base, add)->Ok_0;
        assert forall|j: int| 0 <= j < i - n implies names_something(#[trigger] drop[j]) by {
            assert((add + drop)[n + j] == drop[j]);
        }
        lemma_first_unknown(set, drop, i - n);
    }
}

} // verus!
