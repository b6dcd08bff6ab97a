//! The values of the command line options.
use vstd::prelude::*;
use vstd::string::*;

use crate::error::{opt_text, seen};
use crate::number::{
    decimal, is_digit, law_decimal_reads_back, law_numbers_that_fit_are_read, parsed_unsigned,
};
use crate::number::{parse_u16, parse_u32, write_decimal};
use crate::path::{is_absolute, lemma_split_append, path_is_absolute};
use crate::text::{
    join, law_rsplit_once_rejoins, law_split_rejoins, lemma_last_index, lemma_no_split,
    lemma_split_at, rsplit_once, split, split_once, splitn, texts,
};
use crate::text::{concat3, rsplit_text_once, same_text, split_text, split_text_once, splitn_text};

verus! {

/// What is wrong with the value of an option.
#[derive(Clone, Copy, Debug, PartialEq, Eq, Structural)]
pub enum OptionErrorKind {
    DeviceNotFound,
    VolumeFormat,
    ContainerPathNotAbsolute,
    HostEntryFormat,
    PortFormat,
    HostPort,
    ContainerPort,
    NetworkMode,
    SeccompPolicy,
    SystemdMode,
    NonNumericUser,
    NonNumericGroup,
}

/// The value of an option that was refused: what is wrong, and with which part of it.
#[derive(Clone, Debug)]
pub struct OptionError {
    pub kind: OptionErrorKind,
    pub text: String,
}

impl View for OptionError {
    type V = (OptionErrorKind, Seq<char>);

    open spec fn view(&self) -> (OptionErrorKind, Seq<char>) {
        (self.kind, self.text@)
    }
}

impl OptionErrorKind {
    /// What a message says before the refused text.
    pub open spec fn lead(self) -> Seq<char> {
        match self {
            OptionErrorKind::DeviceNotFound => "Device path '"@,
            OptionErrorKind::VolumeFormat => "Volume must be HOST:CONTAINER[:ro], got: "@,
            OptionErrorKind::ContainerPathNotAbsolute => "Container path must be absolute, got: "@,
            OptionErrorKind::HostEntryFormat => "--add-host must be HOST:IP, got '"@,
            OptionErrorKind::PortFormat => "Port must be HOST_PORT:CONTAINER_PORT[/PROTO], got '"@,
            OptionErrorKind::HostPort => "Parsing host port"@,
            OptionErrorKind::ContainerPort => "Parsing container port"@,
            OptionErrorKind::NetworkMode => "Unknown network mode '"@,
            OptionErrorKind::SeccompPolicy => "Unknown seccomp policy '"@,
            OptionErrorKind::SystemdMode => "Unknown systemd mode '"@,
            OptionErrorKind::NonNumericUser => "Non-numeric user '"@,
            OptionErrorKind::NonNumericGroup => "Non-numeric group '"@,
        }
    }

    /// What a message says behind the refused text.
    pub open spec fn tail(self) -> Seq<char> {
        match self {
            OptionErrorKind::DeviceNotFound => "' not found"@,
            OptionErrorKind::HostEntryFormat => "'"@,
            OptionErrorKind::PortFormat => "'"@,
            OptionErrorKind::NetworkMode => "', expected host|pasta|bridge|private"@,
            OptionErrorKind::SeccompPolicy => "', expected default|image"@,
            OptionErrorKind::SystemdMode => "', expected true|false|always"@,
            OptionErrorKind::NonNumericUser => "' — only numeric UIDs are supported"@,
            OptionErrorKind::NonNumericGroup => "' — only numeric GIDs are supported"@,
            _ => ""@,
        }
    }

    /// Whether a message leaves the refused text out.
    pub open spec fn is_bare(self) -> bool {
        self == OptionErrorKind::HostPort || self == OptionErrorKind::ContainerPort
    }
}

impl OptionError {
    fn new(kind: OptionErrorKind, text: &str) -> (e: OptionError)
        ensures
            e@ == (kind, text@),
    {
        OptionError { kind, text: text.to_owned() }
    }

    /// What the user is told.
    pub fn message(&self) -> (m: String)
        ensures
            m@ == if self.kind.is_bare() {
                self.kind.lead()
            } else {
                self.kind.lead() + self.text@ + self.kind.tail()
            },
    {
        let t = self.text.as_str();
        match self.kind {
            OptionErrorKind::DeviceNotFound => concat3("Device path '", t, "' not found"),
            OptionErrorKind::VolumeFormat => concat3(
                "Volume must be HOST:CONTAINER[:ro], got: ",
                t,
                "",
            ),
            OptionErrorKind::ContainerPathNotAbsolute => concat3(
                "Container path must be absolute, got: ",
                t,
                "",
            ),
            OptionErrorKind::HostEntryFormat => concat3(
                "--add-host must be HOST:IP, got '",
                t,
                "'",
            ),
            OptionErrorKind::PortFormat => concat3(
                "Port must be HOST_PORT:CONTAINER_PORT[/PROTO], got '",
                t,
                "'",
            ),
            OptionErrorKind::HostPort => "Parsing host port".to_owned(),
            OptionErrorKind::ContainerPort => "Parsing container port".to_owned(),
            OptionErrorKind::NetworkMode => concat3(
                "Unknown network mode '",
                t,
                "', expected host|pasta|bridge|private",
            ),
            OptionErrorKind::SeccompPolicy => concat3(
                "Unknown seccomp policy '",
                t,
                "', expected default|image",
            ),
            OptionErrorKind::SystemdMode => concat3(
                "Unknown systemd mode '",
                t,
                "', expected true|false|always",
            ),
            OptionErrorKind::NonNumericUser => concat3(
                "Non-numeric user '",
                t,
                "' — only numeric UIDs are supported",
            ),
            OptionErrorKind::NonNumericGroup => concat3(
                "Non-numeric group '",
                t,
                "' — only numeric GIDs are supported",
            ),
        }
    }
}

// ---------------------------------------------------------------------------------------
// --volume

/// A host directory to bind mount into the container.
#[derive(Clone, Debug)]
pub struct VolumeSpec {
    pub host: String,
    pub container: String,
    pub read_only: bool,
}

#[verifier::ext_equal]
pub struct VolumeView {
    pub host: Seq<char>,
    pub container: Seq<char>,
    pub read_only: bool,
}

impl View for VolumeSpec {
    type V = VolumeView;

    open spec fn view(&self) -> VolumeView {
        VolumeView { host: self.host@, container: self.container@, read_only: self.read_only }
    }
}

/// `HOST:CONTAINER[:OPTION]`, where the container path is absolute. Only the option `ro`
/// means anything.
pub open spec fn volume_value(s: Seq<char>) -> Result<VolumeView, (OptionErrorKind, Seq<char>)> {
    let parts = splitn(s, 3, ':');
    if parts.len() < 2 {
        Err((OptionErrorKind::VolumeFormat, s))
    } else if !is_absolute(parts[1]) {
        Err((OptionErrorKind::ContainerPathNotAbsolute, parts[1]))
    } else {
        Ok(
            VolumeView {
                host: parts[0],
                container: parts[1],
                read_only: parts.len() > 2 && parts[2] == "ro"@,
            },
        )
    }
}

impl std::str::FromStr for VolumeSpec {
    type Err = OptionError;

    fn from_str(s: &str) -> (r: Result<VolumeSpec, OptionError>)
        ensures
            seen(r) == volume_value(s@),
    {
        let parts = splitn_text(s, 3, ':');
        let ghost pieces = texts(parts@);
        if parts.len() < 2 {
            return Err(OptionError::new(OptionErrorKind::VolumeFormat, s));
        }
        assert(pieces[0] == parts@[0]@ && pieces[1] == parts@[1]@);
        if !path_is_absolute(parts[1].as_str()) {
            return Err(
                OptionError::new(OptionErrorKind::ContainerPathNotAbsolute, parts[1].as_str()),
            );
        }
        let read_only = parts.len() > 2 && same_text(parts[2].as_str(), "ro");
        Ok(VolumeSpec { host: parts[0].clone(), container: parts[1].clone(), read_only })
    }
}

// ---------------------------------------------------------------------------------------
// --device

/// A host device to add to the container.
#[derive(Clone, Debug)]
pub struct DeviceSpec {
    pub src: String,
    pub dst: String,
    pub perms: String,
}

#[verifier::ext_equal]
pub struct DeviceView {
    pub src: Seq<char>,
    pub dst: Seq<char>,
    pub perms: Seq<char>,
}

impl View for DeviceSpec {
    type V = DeviceView;

    open spec fn view(&self) -> DeviceView {
        DeviceView { src: self.src@, dst: self.dst@, perms: self.perms@ }
    }
}

/// The host path that a device option names.
pub open spec fn device_source_text(s: Seq<char>) -> Seq<char> {
    splitn(s, 3, ':')[0]
}

/// `SRC[:DST[:PERMS]]` or `SRC:PERMS`: a second part that is an absolute path is the place in
/// the container, any other one is the permissions. `canonical` is the canonical form of
/// the host path, where there is one.
pub open spec fn device_value(s: Seq<char>, canonical: Option<Seq<char>>) -> Result<
    DeviceView,
    (OptionErrorKind, Seq<char>),
> {
    let parts = splitn(s, 3, ':');
    match canonical {
        None => Err((OptionErrorKind::DeviceNotFound, parts[0])),
        Some(src) => Ok(
            DeviceView {
                src,
                dst: if parts.len() > 1 && is_absolute(parts[1]) {
                    parts[1]
                } else {
                    src
                },
                perms: if parts.len() > 2 {
                    parts[2]
                } else if parts.len() > 1 && !is_absolute(parts[1]) {
                    parts[1]
                } else {
                    "rwm"@
                },
            },
        ),
    }
}

impl DeviceSpec {
    /// The host path that a device option names, which is to be made canonical.
    pub fn source(s: &str) -> (r: String)
        ensures
            r@ == device_source_text(s@),
    {
        let parts = splitn_text(s, 3, ':');
        assert(texts(parts@)[0] == parts@[0]@);
        parts[0].clone()
    }

    /// Reads a device option. `canonical` is the canonical form of the path that
    /// [`DeviceSpec::source`] gives, or `None` where there is no such path.
    pub fn from_str(s: &str, canonical: Option<String>) -> (r: Result<DeviceSpec, OptionError>)
        ensures
            seen(r) == device_value(s@, opt_text(canonical)),
    {
        let parts = splitn_text(s, 3, ':');
        let ghost pieces = texts(parts@);
        assert(pieces[0] == parts@[0]@);
        let src = match canonical {
            None => {
                return Err(OptionError::new(OptionErrorKind::DeviceNotFound, parts[0].as_str()));
            },
            Some(src) => src,
        };
        if parts.len() < 2 {
            let dst = src.clone();
            return Ok(DeviceSpec { src, dst, perms: "rwm".to_owned() });
        }
        assert(pieces[1] == parts@[1]@);
        let placed = path_is_absolute(parts[1].as_str());
        let dst = if placed { parts[1].clone() } else { src.clone() };
        let perms = if parts.len() > 2 {
            assert(pieces[2] == parts@[2]@);
            parts[2].clone()
        } else if !placed {
            parts[1].clone()
        } else {
            "rwm".to_owned()
        };
        Ok(DeviceSpec { src, dst, perms })
    }
}

// ---------------------------------------------------------------------------------------
// --add-host

/// An extra line of `/etc/hosts`.
#[derive(Clone, Debug)]
pub struct HostEntry {
    pub host: String,
    pub ip: String,
}

#[verifier::ext_equal]
pub struct HostView {
    pub host: Seq<char>,
    pub ip: Seq<char>,
}

impl View for HostEntry {
    type V = HostView;

    open spec fn view(&self) -> HostView {
        HostView { host: self.host@, ip: self.ip@ }
    }
}

/// `HOST:IP`, split at the last colon.
pub open spec fn host_value(s: Seq<char>) -> Result<HostView, (OptionErrorKind, Seq<char>)> {
    match rsplit_once(s, ':') {
        Some((host, ip)) => Ok(HostView { host, ip }),
        None => Err((OptionErrorKind::HostEntryFormat, s)),
    }
}

impl std::str::FromStr for HostEntry {
    type Err = OptionError;

    fn from_str(s: &str) -> (r: Result<HostEntry, OptionError>)
        ensures
            seen(r) == host_value(s@),
    {
        match rsplit_text_once(s, ':') {
            Some((host, ip)) => Ok(HostEntry { host: host.to_owned(), ip: ip.to_owned() }),
            None => Err(OptionError::new(OptionErrorKind::HostEntryFormat, s)),
        }
    }
}

/// Law: the host and the address of an entry, with a colon between them, are the option, and
/// the address holds no colon. An option is refused only where it holds no colon at all.
pub proof fn law_host_entry_rejoins(s: Seq<char>)
    ensures
        match host_value(s) {
            Ok(v) => v.host + seq![':'] + v.ip == s && !v.ip.contains(':'),
            Err(_) => !s.contains(':'),
        },
{
    law_rsplit_once_rejoins(s, ':');
}

/// Law: an entry that is written down as `HOST:IP` is read back, whatever the host holds.
pub proof fn law_host_entry_reads_back(v: HostView)
    requires
        !v.ip.contains(':'),
    ensures
        host_value(v.host + seq![':'] + v.ip) == Ok::<HostView, (OptionErrorKind, Seq<char>)>(v),
{
    let s = v.host + seq![':'] + v.ip;
    let i = v.host.len() as int;
    assert forall|j: int| i < j < s.len() implies s[j] != ':' by {
        assert(s[j] == v.ip[j - i - 1]);
        assert(v.ip.contains(v.ip[j - i - 1]));
    }
    lemma_last_index(s, ':', i);
    assert(s.take(i) =~= v.host);
    assert(s.skip(i + 1) =~= v.ip);
}

// ---------------------------------------------------------------------------------------
// --publish

/// A container port to make reachable on the host.
#[derive(Clone, Debug)]
pub struct PortSpec {
    pub host_port: u16,
    pub container_port: u16,
    pub protocol: String,
}

#[verifier::ext_equal]
pub struct PortView {
    pub host_port: nat,
    pub container_port: nat,
    pub protocol: Seq<char>,
}

impl PortSpec {
    /// The same port once more.
    pub fn copy(&self) -> (r: PortSpec)
        ensures
            r@ == self@,
    {
        PortSpec {
            host_port: self.host_port,
            container_port: self.container_port,
            protocol: self.protocol.clone(),
        }
    }
}

impl View for PortSpec {
    type V = PortView;

    open spec fn view(&self) -> PortView {
        PortView {
            host_port: self.host_port as nat,
            container_port: self.container_port as nat,
            protocol: self.protocol@,
        }
    }
}

/// `HOST_PORT:CONTAINER_PORT[/PROTO]`; the protocol is TCP where none is given.
pub open spec fn port_value(s: Seq<char>) -> Result<PortView, (OptionErrorKind, Seq<char>)> {
    let parts = split(s, ':');
    let (port, protocol) = match split_once(parts[1], '/') {
        Some((port, proto)) => (port, proto),
        None => (parts[1], "tcp"@),
    };
    if parts.len() != 2 {
        Err((OptionErrorKind::PortFormat, s))
    } else {
        match (
            parsed_unsigned(parts[0], u16::MAX as nat),
            parsed_unsigned(port, u16::MAX as nat),
        ) {
            (None, _) => Err((OptionErrorKind::HostPort, parts[0])),
            (_, None) => Err((OptionErrorKind::ContainerPort, port)),
            (Some(host_port), Some(container_port)) => Ok(
                PortView { host_port, container_port, protocol },
            ),
        }
    }
}

impl std::str::FromStr for PortSpec {
    type Err = OptionError;

    fn from_str(s: &str) -> (r: Result<PortSpec, OptionError>)
        ensures
            seen(r) == port_value(s@),
    {
        let parts = split_text(s, ':');
        let ghost pieces = texts(parts@);
        if parts.len() != 2 {
            return Err(OptionError::new(OptionErrorKind::PortFormat, s));
        }
        assert(pieces[0] == parts@[0]@ && pieces[1] == parts@[1]@);
        let host_port: u16 = match parse_u16(parts[0].as_str()) {
            Some(n) => n,
            None => {
                return Err(OptionError::new(OptionErrorKind::HostPort, parts[0].as_str()));
            },
        };
        let (port, protocol) = match split_text_once(parts[1].as_str(), '/') {
            Some((port, proto)) => (port, proto),
            None => (parts[1].as_str(), "tcp"),
        };
        match parse_u16(port) {
            Some(container_port) => Ok(
                PortSpec { host_port, container_port, protocol: protocol.to_owned() },
            ),
            None => Err(OptionError::new(OptionErrorKind::ContainerPort, port)),
        }
    }
}

/// How a published port is handed on: the two ports, without the protocol.
pub open spec fn port_text(p: PortView) -> Seq<char> {
    decimal(p.host_port) + ":"@ + decimal(p.container_port)
}

impl PortSpec {
    /// The two ports with a colon between them.
    pub fn to_text(&self) -> (r: String)
        ensures
            r@ == port_text(self@),
    {
        let host = write_decimal(self.host_port as u64);
        let container = write_decimal(self.container_port as u64);
        concat3(host.as_str(), ":", container.as_str())
    }
}

proof fn lemma_decimal_lacks(n: nat, c: char)
    requires
        c == ':' || c == '/',
    ensures
        !decimal(n).contains(c),
{
    law_decimal_reads_back(n);
}

/// Law: the text of a published port is a valid option, and names the same two ports.
pub proof fn law_port_text_reads_back(p: PortView)
    requires
        p.host_port <= u16::MAX,
        p.container_port <= u16::MAX,
    ensures
        port_value(port_text(p)) == Ok::<PortView, (OptionErrorKind, Seq<char>)>(
            PortView { protocol: "tcp"@, ..p },
        ),
{
    let a = decimal(p.host_port);
    let b = decimal(p.container_port);
    reveal_strlit(":");
    assert(":"@ =~= seq![':']);
    law_decimal_reads_back(p.host_port);
    law_decimal_reads_back(p.container_port);
    lemma_decimal_lacks(p.host_port, ':');
    lemma_decimal_lacks(p.container_port, ':');
    lemma_decimal_lacks(p.container_port, '/');
    lemma_split_append(a, ':', b);
    lemma_no_split(a, ':');
    assert(split(port_text(p), ':') =~= seq![a, b]);
    lemma_no_split(b, '/');
}

// ---------------------------------------------------------------------------------------
// --security-opt

/// A security option: a key, with a value or without.
#[derive(Clone, Debug)]
pub struct SecurityOpt {
    pub key: String,
    pub value: Option<String>,
}

#[verifier::ext_equal]
pub struct SecurityView {
    pub key: Seq<char>,
    pub value: Option<Seq<char>>,
}

impl View for SecurityOpt {
    type V = SecurityView;

    open spec fn view(&self) -> SecurityView {
        SecurityView { key: self.key@, value: opt_text(self.value) }
    }
}

impl SecurityView {
    /// No value, or one of `true`, `1` and `yes`.
    pub open spec fn is_true(self) -> bool {
        match self.value {
            None => true,
            Some(v) => v == "true"@ || v == "1"@ || v == "yes"@,
        }
    }

    /// One of `false`, `0` and `no`.
    pub open spec fn is_false(self) -> bool {
        match self.value {
            None => false,
            Some(v) => v == "false"@ || v == "0"@ || v == "no"@,
        }
    }
}

/// `KEY=VALUE`, or `KEY:VALUE` where there is no equals sign, or a bare key.
pub open spec fn security_value(s: Seq<char>) -> SecurityView {
    match (split_once(s, '='), split_once(s, ':')) {
        (Some((key, value)), _) => SecurityView { key, value: Some(value) },
        (None, Some((key, value))) => SecurityView { key, value: Some(value) },
        (None, None) => SecurityView { key: s, value: None },
    }
}

impl SecurityOpt {
    /// Whether the option is switched on: it has no value, or one that says so.
    pub fn is_true(&self) -> (r: bool)
        ensures
            r == self@.is_true(),
    {
        match &self.value {
            None => true,
            Some(v) => same_text(v.as_str(), "true") || same_text(v.as_str(), "1") || same_text(
                v.as_str(),
                "yes",
            ),
        }
    }

    /// Whether the option is switched off by its value.
    pub fn is_false(&self) -> (r: bool)
        ensures
            r == self@.is_false(),
    {
        match &self.value {
            None => false,
            Some(v) => same_text(v.as_str(), "false") || same_text(v.as_str(), "0") || same_text(
                v.as_str(),
                "no",
            ),
        }
    }
}

impl std::str::FromStr for SecurityOpt {
    type Err = OptionError;

    fn from_str(s: &str) -> (r: Result<SecurityOpt, OptionError>)
        ensures
            r matches Ok(opt) && opt@ == security_value(s@),
    {
        if let Some((key, value)) = split_text_once(s, '=') {
            return Ok(SecurityOpt { key: key.to_owned(), value: Some(value.to_owned()) });
        }
        if let Some((key, value)) = split_text_once(s, ':') {
            return Ok(SecurityOpt { key: key.to_owned(), value: Some(value.to_owned()) });
        }
        Ok(SecurityOpt { key: s.to_owned(), value: None })
    }
}

/// Law: no option is switched on and off at once.
pub proof fn law_security_opt_is_consistent(opt: SecurityView)
    ensures
        !(opt.is_true() && opt.is_false()),
{
    if let Some(v) = opt.value {
        reveal_strlit("true");
        reveal_strlit("1");
        reveal_strlit("yes");
        reveal_strlit("false");
        reveal_strlit("0");
        reveal_strlit("no");
        assert("1"@[0] != "0"@[0]);
        assert("true"@.len() == 4 && "false"@.len() == 5 && "yes"@.len() == 3 && "no"@.len() == 2);
    }
}

// ---------------------------------------------------------------------------------------
// --network, --seccomp-policy, --systemd

/// How the container is connected.
#[derive(Clone, Copy, Debug, PartialEq, Eq, Structural)]
pub enum NetworkMode {
    Host,
    Pasta,
    Bridge,
    Private,
}

pub open spec fn network_value(s: Seq<char>) -> Option<NetworkMode> {
    if s == "host"@ {
        Some(NetworkMode::Host)
    } else if s == "pasta"@ {
        Some(NetworkMode::Pasta)
    } else if s == "bridge"@ {
        Some(NetworkMode::Bridge)
    } else if s == "private"@ {
        Some(NetworkMode::Private)
    } else {
        None
    }
}

impl std::str::FromStr for NetworkMode {
    type Err = OptionError;

    fn from_str(s: &str) -> (r: Result<NetworkMode, OptionError>)
        ensures
            match r {
                Ok(mode) => network_value(s@) == Some(mode),
                Err(e) => network_value(s@) is None && e@ == (OptionErrorKind::NetworkMode, s@),
            },
    {
        if same_text(s, "host") {
            Ok(NetworkMode::Host)
        } else if same_text(s, "pasta") {
            Ok(NetworkMode::Pasta)
        } else if same_text(s, "bridge") {
            Ok(NetworkMode::Bridge)
        } else if same_text(s, "private") {
            Ok(NetworkMode::Private)
        } else {
            Err(OptionError::new(OptionErrorKind::NetworkMode, s))
        }
    }
}

/// Where the seccomp profile comes from.
#[derive(Clone, Copy, Debug, PartialEq, Eq, Structural)]
pub enum SeccompPolicy {
    Default,
    Image,
}

impl Default for SeccompPolicy {
    fn default() -> (r: SeccompPolicy)
        ensures
            r == SeccompPolicy::Default,
    {
        SeccompPolicy::Default
    }
}

pub open spec fn seccomp_value(s: Seq<char>) -> Option<SeccompPolicy> {
    if s == "default"@ {
        Some(SeccompPolicy::Default)
    } else if s == "image"@ {
        Some(SeccompPolicy::Image)
    } else {
        None
    }
}

impl std::str::FromStr for SeccompPolicy {
    type Err = OptionError;

    fn from_str(s: &str) -> (r: Result<SeccompPolicy, OptionError>)
        ensures
            match r {
                Ok(policy) => seccomp_value(s@) == Some(policy),
                Err(e) => seccomp_value(s@) is None && e@ == (OptionErrorKind::SeccompPolicy, s@),
            },
    {
        if same_text(s, "default") {
            Ok(SeccompPolicy::Default)
        } else if same_text(s, "image") {
            Ok(SeccompPolicy::Image)
        } else {
            Err(OptionError::new(OptionErrorKind::SeccompPolicy, s))
        }
    }
}

/// Whether the container is set up for systemd.
#[derive(Clone, Copy, Debug, PartialEq, Eq, Structural)]
pub enum SystemdMode {
    Auto,
    Always,
    Off,
}

impl Default for SystemdMode {
    fn default() -> (r: SystemdMode)
        ensures
            r == SystemdMode::Auto,
    {
        SystemdMode::Auto
    }
}

pub open spec fn systemd_value(s: Seq<char>) -> Option<SystemdMode> {
    if s == "true"@ {
        Some(SystemdMode::Auto)
    } else if s == "always"@ {
        Some(SystemdMode::Always)
    } else if s == "false"@ {
        Some(SystemdMode::Off)
    } else {
        None
    }
}

impl std::str::FromStr for SystemdMode {
    type Err = OptionError;

    fn from_str(s: &str) -> (r: Result<SystemdMode, OptionError>)
        ensures
            match r {
                Ok(mode) => systemd_value(s@) == Some(mode),
                Err(e) => systemd_value(s@) is None && e@ == (OptionErrorKind::SystemdMode, s@),
            },
    {
        if same_text(s, "true") {
            Ok(SystemdMode::Auto)
        } else if same_text(s, "always") {
            Ok(SystemdMode::Always)
        } else if same_text(s, "false") {
            Ok(SystemdMode::Off)
        } else {
            Err(OptionError::new(OptionErrorKind::SystemdMode, s))
        }
    }
}

// ---------------------------------------------------------------------------------------
// --user

/// The user and the group that the container's process runs as.
#[derive(Clone, Copy, Debug, PartialEq, Eq, Structural)]
pub struct UserSpec {
    pub uid: u32,
    pub gid: u32,
}

/// `UID[:GID]`; the group has the number of the user where it is left out, and an empty
/// text is root.
pub open spec fn user_value(s: Seq<char>) -> Result<UserSpec, (OptionErrorKind, Seq<char>)> {
    if s.len() == 0 {
        Ok(UserSpec { uid: 0, gid: 0 })
    } else {
        let (user, group) = match split_once(s, ':') {
            Some((user, group)) => (user, Some(group)),
            None => (s, None),
        };
        match parsed_unsigned(user, u32::MAX as nat) {
            None => Err((OptionErrorKind::NonNumericUser, user)),
            Some(uid) => match group {
                None => Ok(UserSpec { uid: uid as u32, gid: uid as u32 }),
                Some(g) => match parsed_unsigned(g, u32::MAX as nat) {
                    None => Err((OptionErrorKind::NonNumericGroup, g)),
                    Some(gid) => Ok(UserSpec { uid: uid as u32, gid: gid as u32 }),
                },
            },
        }
    }
}

impl std::str::FromStr for UserSpec {
    type Err = OptionError;

    fn from_str(s: &str) -> (r: Result<UserSpec, OptionError>)
        ensures
            match r {
                Ok(user) => user_value(s@) == Ok::<UserSpec, (OptionErrorKind, Seq<char>)>(user),
                Err(e) => user_value(s@) == Err::<UserSpec, (OptionErrorKind, Seq<char>)>(e@),
            },
    {
        if s.is_empty() {
            return Ok(UserSpec { uid: 0, gid: 0 });
        }
        let (user, group) = match split_text_once(s, ':') {
            Some((user, group)) => (user, Some(group)),
            None => (s, None),
        };
        let uid: u32 = match parse_u32(user) {
            Some(n) => n,
            None => {
                return Err(OptionError::new(OptionErrorKind::NonNumericUser, user));
            },
        };
        match group {
            None => Ok(UserSpec { uid, gid: uid }),
            Some(g) => match parse_u32(g) {
                Some(gid) => Ok(UserSpec { uid, gid }),
                None => Err(OptionError::new(OptionErrorKind::NonNumericGroup, g)),
            },
        }
    }
}

/// Law: a user and a group in decimal, with a colon between them, are read back; and a user
/// alone stands for the group of the same number too.
pub proof fn law_user_reads_back(user: UserSpec)
    ensures
        user_value(decimal(user.uid as nat) + seq![':'] + decimal(user.gid as nat)) == Ok::<
            UserSpec,
            (OptionErrorKind, Seq<char>),
        >(user),
        user_value(decimal(user.uid as nat)) == Ok::<UserSpec, (OptionErrorKind, Seq<char>)>(
            UserSpec { uid: user.uid, gid: user.uid },
        ),
{
    law_decimal_reads_back(user.uid as nat);
    law_decimal_reads_back(user.gid as nat);
    lemma_decimal_lacks(user.uid as nat, ':');
    lemma_split_at(decimal(user.uid as nat), ':', decimal(user.gid as nat));
    lemma_no_split(decimal(user.uid as nat), ':');
}

// ---------------------------------------------------------------------------------------
// Laws: each form that an option can take, and what it means

proof fn lemma_two_parts(a: Seq<char>, b: Seq<char>)
    requires
        !a.contains(':'),
        !b.contains(':'),
    ensures
        splitn(a + seq![':'] + b, 3, ':') == seq![a, b],
{
    let s = a + seq![':'] + b;
    lemma_split_at(a, ':', b);
    assert(s.take(a.len() as int) =~= a);
    assert(s.skip(a.len() as int + 1) =~= b);
    lemma_no_split(b, ':');
    assert(splitn(b, 2, ':') =~= seq![b]);
    assert(splitn(s, 3, ':') =~= seq![a, b]);
}

proof fn lemma_three_parts(a: Seq<char>, b: Seq<char>, c: Seq<char>)
    requires
        !a.contains(':'),
        !b.contains(':'),
    ensures
        splitn(a + seq![':'] + b + seq![':'] + c, 3, ':') == seq![a, b, c],
{
    let t = b + seq![':'] + c;
    let s = a + seq![':'] + t;
    assert(s =~= a + seq![':'] + b + seq![':'] + c);
    lemma_split_at(a, ':', t);
    assert(s.take(a.len() as int) =~= a);
    assert(s.skip(a.len() as int + 1) =~= t);
    lemma_split_at(b, ':', c);
    assert(t.take(b.len() as int) =~= b);
    assert(t.skip(b.len() as int + 1) =~= c);
    assert(splitn(c, 1, ':') =~= seq![c]);
    assert(splitn(t, 2, ':') =~= seq![b, c]);
    assert(splitn(s, 3, ':') =~= seq![a, b, c]);
}

proof fn lemma_one_part(a: Seq<char>)
    requires
        !a.contains(':'),
    ensures
        splitn(a, 3, ':') == seq![a],
{
    lemma_no_split(a, ':');
}

/// Law: a volume is read back from its two paths. It is read-only where `ro` stands behind them,
/// and nowhere else.
pub proof fn law_volume_forms(host: Seq<char>, container: Seq<char>, rest: Seq<char>)
    requires
        !host.contains(':'),
        !container.contains(':'),
        container.len() > 0,
        container[0] == '/',
    ensures
        volume_value(host + seq![':'] + container) == Ok::<
            VolumeView,
            (OptionErrorKind, Seq<char>),
        >(VolumeView { host, container, read_only: false }),
        volume_value(host + seq![':'] + container + seq![':'] + rest) == Ok::<
            VolumeView,
            (OptionErrorKind, Seq<char>),
        >(VolumeView { host, container, read_only: rest == seq!['r', 'o'] }),
{
    reveal_strlit("ro");
    assert("ro"@ =~= seq!['r', 'o']);
    lemma_two_parts(host, container);
    lemma_three_parts(host, container, rest);
}

/// Law: a volume without a place in the container is refused, and so is one whose place is not
/// absolute; the message names what is wrong.
pub proof fn law_refused_volumes(host: Seq<char>, container: Seq<char>, rest: Seq<char>)
    requires
        !host.contains(':'),
        !container.contains(':'),
        !(container.len() > 0 && container[0] == '/'),
    ensures
        volume_value(host) == Err::<VolumeView, (OptionErrorKind, Seq<char>)>(
            (OptionErrorKind::VolumeFormat, host),
        ),
        volume_value(host + seq![':'] + container) == Err::<
            VolumeView,
            (OptionErrorKind, Seq<char>),
        >((OptionErrorKind::ContainerPathNotAbsolute, container)),
        volume_value(host + seq![':'] + container + seq![':'] + rest) == Err::<
            VolumeView,
            (OptionErrorKind, Seq<char>),
        >((OptionErrorKind::ContainerPathNotAbsolute, container)),
{
    lemma_one_part(host);
    lemma_two_parts(host, container);
    lemma_three_parts(host, container, rest);
}

/// Law: a device whose host path exists is read back in each of its forms: alone, with a place in
/// the container, with permissions, and with both. Without a place it stands where it stands on
/// the host, and without permissions it has all of them.
pub proof fn law_device_forms(
    src: Seq<char>,
    canonical: Seq<char>,
    place: Seq<char>,
    perms: Seq<char>,
    rest: Seq<char>,
)
    requires
        !src.contains(':'),
        !place.contains(':'),
        place.len() > 0,
        place[0] == '/',
        !perms.contains(':'),
        !(perms.len() > 0 && perms[0] == '/'),
    ensures
        device_value(src, Some(canonical)) == Ok::<DeviceView, (OptionErrorKind, Seq<char>)>(
            DeviceView { src: canonical, dst: canonical, perms: seq!['r', 'w', 'm'] },
        ),
        device_value(src + seq![':'] + place, Some(canonical)) == Ok::<
            DeviceView,
            (OptionErrorKind, Seq<char>),
        >(DeviceView { src: canonical, dst: place, perms: seq!['r', 'w', 'm'] }),
        device_value(src + seq![':'] + perms, Some(canonical)) == Ok::<
            DeviceView,
            (OptionErrorKind, Seq<char>),
        >(DeviceView { src: canonical, dst: canonical, perms }),
        device_value(src + seq![':'] + place + seq![':'] + rest, Some(canonical)) == Ok::<
            DeviceView,
            (OptionErrorKind, Seq<char>),
        >(DeviceView { src: canonical, dst: place, perms: rest }),
        device_value(src + seq![':'] + perms + seq![':'] + rest, Some(canonical)) == Ok::<
            DeviceView,
            (OptionErrorKind, Seq<char>),
        >(DeviceView { src: canonical, dst: canonical, perms: rest }),
{
    reveal_strlit("rwm");
    assert("rwm"@ =~= seq!['r', 'w', 'm']);
    lemma_one_part(src);
    lemma_two_parts(src, place);
    lemma_two_parts(src, perms);
    lemma_three_parts(src, place, rest);
    lemma_three_parts(src, perms, rest);
}

/// Law: the host path of a device is what stands before the first colon, and a device whose host
/// path does not exist is refused by that path.
pub proof fn law_device_source(src: Seq<char>, rest: Seq<char>)
    requires
        !src.contains(':'),
    ensures
        device_source_text(src) == src,
        device_source_text(src + seq![':'] + rest) == src,
        device_value(src, None) == Err::<DeviceView, (OptionErrorKind, Seq<char>)>(
            (OptionErrorKind::DeviceNotFound, src),
        ),
        device_value(src + seq![':'] + rest, None) == Err::<
            DeviceView,
            (OptionErrorKind, Seq<char>),
        >((OptionErrorKind::DeviceNotFound, src)),
{
    lemma_one_part(src);
    let s = src + seq![':'] + rest;
    lemma_split_at(src, ':', rest);
    assert(s.take(src.len() as int) =~= src);
    assert(splitn(s, 3, ':')[0] == src);
}

/// Law: two ports in decimal are read back, with the protocol that stands behind a slash, and as
/// TCP where none does. A port that does not fit is refused.
pub proof fn law_port_forms(host: nat, container: nat, protocol: Seq<char>)
    requires
        !protocol.contains(':'),
    ensures
        host <= 65535 && container <= 65535 ==> {
            &&& port_value(decimal(host) + seq![':'] + decimal(container)) == Ok::<
                PortView,
                (OptionErrorKind, Seq<char>),
            >(
                PortView {
                    host_port: host,
                    container_port: container,
                    protocol: seq!['t', 'c', 'p'],
                },
            )
            &&& port_value(
                decimal(host) + seq![':'] + (decimal(container) + seq!['/'] + protocol),
            ) == Ok::<PortView, (OptionErrorKind, Seq<char>)>(
                PortView { host_port: host, container_port: container, protocol },
            )
        },
        host > 65535 ==> port_value(decimal(host) + seq![':'] + decimal(container)) == Err::<
            PortView,
            (OptionErrorKind, Seq<char>),
        >((OptionErrorKind::HostPort, decimal(host))),
        host <= 65535 && container > 65535 ==> port_value(
            decimal(host) + seq![':'] + decimal(container),
        ) == Err::<PortView, (OptionErrorKind, Seq<char>)>(
            (OptionErrorKind::ContainerPort, decimal(container)),
        ),
{
    reveal_strlit("tcp");
    assert("tcp"@ =~= seq!['t', 'c', 'p']);
    law_numbers_that_fit_are_read(host, 65535);
    law_numbers_that_fit_are_read(container, 65535);
    lemma_decimal_is_plain(host);
    lemma_decimal_is_plain(container);
    let h = decimal(host);
    let c = decimal(container);
    lemma_no_split(h, ':');
    lemma_split_append(h, ':', c);
    assert(split(h + seq![':'] + c, ':') =~= seq![h, c]);
    lemma_no_split(c, '/');
    let d = c + seq!['/'] + protocol;
    assert(!d.contains(':')) by {
        if d.contains(':') {
            let k = choose|k: int| 0 <= k < d.len() && d[k] == ':';
            if k < c.len() {
                assert(c[k] == ':');
                assert(c.contains(':'));
            } else {
                assert(protocol[k - c.len() - 1] == ':');
                assert(protocol.contains(':'));
            }
        }
    }
    lemma_split_append(h, ':', d);
    assert(split(h + seq![':'] + d, ':') =~= seq![h, d]);
    lemma_split_at(c, '/', protocol);
}

proof fn lemma_decimal_is_plain(n: nat)
    ensures
        !decimal(n).contains(':'),
        !decimal(n).contains('/'),
{
    law_decimal_reads_back(n);
    let s = decimal(n);
    assert forall|i: int| 0 <= i < s.len() implies s[i] != ':' && #[trigger] s[i] != '/' by {
        assert(is_digit(s[i]));
    }
}

/// Law: a published port has exactly one colon in it.
pub proof fn law_ports_have_one_colon(s: Seq<char>)
    ensures
        port_value(s) is Ok ==> exists|a: Seq<char>, b: Seq<char>|
            s == #[trigger] (a + seq![':'] + b) && !a.contains(':') && !b.contains(':'),
        !s.contains(':') ==> port_value(s) == Err::<PortView, (OptionErrorKind, Seq<char>)>(
            (OptionErrorKind::PortFormat, s),
        ),
{
    law_split_rejoins(s, ':');
    let parts = split(s, ':');
    if parts.len() == 2 {
        assert(parts.drop_last() =~= seq![parts[0]]);
        assert(join(seq![parts[0]], seq![':']) == parts[0]);
        assert(s == parts[0] + seq![':'] + parts[1]);
    }
    if !s.contains(':') {
        lemma_no_split(s, ':');
    }
}

/// Law: the key and the value of a security option stand on the two sides of the first equals
/// sign, or of the first colon where there is no equals sign; without either it is a bare key.
pub proof fn law_security_forms(key: Seq<char>, value: Seq<char>)
    requires
        !key.contains('='),
    ensures
        security_value(key + seq!['='] + value) == (SecurityView { key, value: Some(value) }),
        !key.contains(':') && !value.contains('=') ==> security_value(key + seq![':'] + value) == (
        SecurityView { key, value: Some(value) }),
        !key.contains(':') ==> security_value(key) == (SecurityView { key, value: None }),
{
    lemma_split_at(key, '=', value);
    if !key.contains(':') {
        lemma_split_at(key, ':', value);
        lemma_no_split(key, '=');
        lemma_no_split(key, ':');
        let s = key + seq![':'] + value;
        if !value.contains('=') {
            assert(!s.contains('=')) by {
                if s.contains('=') {
                    let k = choose|k: int| 0 <= k < s.len() && s[k] == '=';
                    if k < key.len() {
                        assert(key[k] == '=');
                        assert(key.contains('='));
                    } else {
                        assert(value[k - key.len() - 1] == '=');
                        assert(value.contains('='));
                    }
                }
            }
            lemma_no_split(s, '=');
        }
    }
}

/// Law: an option is switched off by three words and by nothing else, and switched on by three
/// others and by no value at all.
pub proof fn law_security_words(opt: SecurityView)
    ensures
        opt.is_false() <==> opt.value == Some(seq!['f', 'a', 'l', 's', 'e']) || opt.value == Some(
            seq!['0'],
        ) || opt.value == Some(seq!['n', 'o']),
        opt.is_true() <==> opt.value is None || opt.value == Some(seq!['t', 'r', 'u', 'e'])
            || opt.value == Some(seq!['1']) || opt.value == Some(seq!['y', 'e', 's']),
{
    reveal_strlit("false");
    reveal_strlit("0");
    reveal_strlit("no");
    reveal_strlit("true");
    reveal_strlit("1");
    reveal_strlit("yes");
    assert("false"@ =~= seq!['f', 'a', 'l', 's', 'e']);
    assert("0"@ =~= seq!['0']);
    assert("no"@ =~= seq!['n', 'o']);
    assert("true"@ =~= seq!['t', 'r', 'u', 'e']);
    assert("1"@ =~= seq!['1']);
    assert("yes"@ =~= seq!['y', 'e', 's']);
}

/// Law: every network mode, policy and systemd mode has exactly one name.
pub proof fn law_modes_have_one_name(s: Seq<char>, t: Seq<char>)
    ensures
        network_value(s) is Some && network_value(s) == network_value(t) ==> s == t,
        seccomp_value(s) is Some && seccomp_value(s) == seccomp_value(t) ==> s == t,
        systemd_value(s) is Some && systemd_value(s) == systemd_value(t) ==> s == t,
        network_value("host"@) == Some(NetworkMode::Host),
        network_value("pasta"@) == Some(NetworkMode::Pasta),
        network_value("bridge"@) == Some(NetworkMode::Bridge),
        network_value("private"@) == Some(NetworkMode::Private),
        seccomp_value("default"@) == Some(SeccompPolicy::Default),
        seccomp_value("image"@) == Some(SeccompPolicy::Image),
        systemd_value("true"@) == Some(SystemdMode::Auto),
        systemd_value("always"@) == Some(SystemdMode::Always),
        systemd_value("false"@) == Some(SystemdMode::Off),
{
    reveal_strlit("host");
    reveal_strlit("pasta");
    reveal_strlit("bridge");
    reveal_strlit("private");
    reveal_strlit("default");
    reveal_strlit("image");
    reveal_strlit("true");
    reveal_strlit("always");
    reveal_strlit("false");
    assert("pasta"@.len() != "host"@.len());
    assert("bridge"@.len() != "host"@.len() && "bridge"@.len() != "pasta"@.len());
    assert("private"@.len() == 7);
    assert("default"@.len() != "image"@.len());
    assert("always"@.len() != "true"@.len() && "false"@.len() != "true"@.len());
    assert("false"@.len() != "always"@.len());
}

/// Law: an empty user is root, and any other user is a number, with a group that is a number too
/// or left out. Whoever gives no numbers is refused.
pub proof fn law_users_are_numbers(s: Seq<char>)
    ensures
        s.len() == 0 ==> user_value(s) == Ok::<UserSpec, (OptionErrorKind, Seq<char>)>(
            UserSpec { uid: 0, gid: 0 },
        ),
        s.len() > 0 && !s.contains(':') ==> match parsed_unsigned(s, 0xffff_ffff) {
            Some(n) => user_value(s) == Ok::<UserSpec, (OptionErrorKind, Seq<char>)>(
                UserSpec { uid: n as u32, gid: n as u32 },
            ),
            None => user_value(s) == Err::<UserSpec, (OptionErrorKind, Seq<char>)>(
                (OptionErrorKind::NonNumericUser, s),
            ),
        },
        forall|a: Seq<char>, b: Seq<char>|
            !a.contains(':') && s == #[trigger] (a + seq![':'] + b) ==> match (
                parsed_unsigned(a, 0xffff_ffff),
                parsed_unsigned(b, 0xffff_ffff),
            ) {
                (Some(uid), Some(gid)) => user_value(s) == Ok::<
                    UserSpec,
                    (OptionErrorKind, Seq<char>),
                >(UserSpec { uid: uid as u32, gid: gid as u32 }),
                (None, _) => user_value(s) == Err::<UserSpec, (OptionErrorKind, Seq<char>)>(
                    (OptionErrorKind::NonNumericUser, a),
                ),
                (_, None) => user_value(s) == Err::<UserSpec, (OptionErrorKind, Seq<char>)>(
                    (OptionErrorKind::NonNumericGroup, b),
                ),
            },
{
    if !s.contains(':') {
        lemma_no_split(s, ':');
    }
    assert forall|a: Seq<char>, b: Seq<char>|
        !a.contains(':') && s == #[trigger] (a + seq![':'] + b) implies split_once(s, ':') == Some(
        (a, b),
    ) by {
        lemma_split_at(a, ':', b);
    }
}

/// Law: both ports have to be numbers that fit, and the first one that is not is the one that is
/// refused.
pub proof fn law_ports_are_numbers(host: Seq<char>, container: Seq<char>, protocol: Seq<char>)
    requires
        !host.contains(':'),
        !container.contains(':'),
        !container.contains('/'),
        !protocol.contains(':'),
    ensures
        ({
            let plain = port_value(host + seq![':'] + container);
            let full = port_value(host + seq![':'] + (container + seq!['/'] + protocol));
            match (parsed_unsigned(host, 65535), parsed_unsigned(container, 65535)) {
                (None, _) => plain == Err::<PortView, (OptionErrorKind, Seq<char>)>(
                    (OptionErrorKind::HostPort, host),
                ) && full == plain,
                (_, None) => plain == Err::<PortView, (OptionErrorKind, Seq<char>)>(
                    (OptionErrorKind::ContainerPort, container),
                ) && full == plain,
                (Some(h), Some(c)) => plain == Ok::<PortView, (OptionErrorKind, Seq<char>)>(
                    PortView { host_port: h, container_port: c, protocol: "tcp"@ },
                ) && full == Ok::<PortView, (OptionErrorKind, Seq<char>)>(
                    PortView { host_port: h, container_port: c, protocol },
                ),
            }
        }),
{
    lemma_no_split(host, ':');
    lemma_split_append(host, ':', container);
    assert(split(host + seq![':'] + container, ':') =~= seq![host, container]);
    lemma_no_split(container, '/');
    let d = container + seq!['/'] + protocol;
    assert(!d.contains(':')) by {
        if d.contains(':') {
            let k = choose|k: int| 0 <= k < d.len() && d[k] == ':';
            if k < container.len() {
                assert(container[k] == ':');
                assert(container.contains(':'));
            } else {
                assert(protocol[k - container.len() - 1] == ':');
                assert(protocol.contains(':'));
            }
        }
    }
    lemma_split_append(host, ':', d);
    assert(split(host + seq![':'] + d, ':') =~= seq![host, d]);
    lemma_split_at(container, '/', protocol);
}

} // verus!
