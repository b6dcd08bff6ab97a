//! What the container runtime is told.
use vstd::prelude::*;
use vstd::string::*;

use crate::capability::effective_set;
use crate::capability::{Capability, CapabilitySet};
use crate::cli::Cli;
use crate::device::{allow_all_devices, collect_devices, DeviceInfo, DeviceKind, Devices};
use crate::device::{
    devices_value, free_access, law_device_rules_allow, no_devices, with_free_access,
    DeviceRuleView, DevicesView,
};
use crate::error::{opt_text, seen, RunError, RunErrorView};
use crate::etc::{dns_value, etc_config_value, etc_mount_list, resolv_text};
use crate::etc::{effective_dns, generate_etc_config, EtcConfig, EtcConfigView};
use crate::image::label_text;
use crate::image::ImageConfig;
use crate::mount::{append_mounts, device_mounts, system_mounts, volume_mounts, Mount, MountView};
use crate::mount::{
    device_mount, device_mount_list, mount, system_mount_list, volume_mount, volume_mount_list,
};
use crate::number::{law_signed_numbers_that_fit_are_read, parsed_i32, signed_decimal};
use crate::number::write_signed_decimal;
use crate::options::{user_value, NetworkMode, SystemdMode, UserSpec};
use crate::process::{
    command_value, env_key, env_value, first_present, init_places, law_last_setting_counts,
    law_systemd_is_noticed, systemd_wanted,
};
use crate::security::security_settings_value;
use crate::security::{opt_source, SeccompSource, SeccompSourceView};
use crate::settings::{chosen_command, law_privileged_settings, settings_value};
use crate::settings::{Settings, SettingsView};
use crate::text::{concat2, four, one, same_text};
use crate::text::{byte_prefix, law_ascii_prefix, opt_texts, texts, views};

verus! {

// ---------------------------------------------------------------------------------------
// Namespaces

/// A kind of Linux namespace.
#[derive(Clone, Copy, Debug, PartialEq, Eq, Structural)]
pub enum NamespaceKind {
    Mount,
    Cgroup,
    Uts,
    Ipc,
    User,
    Pid,
    Network,
    Time,
}

/// A namespace: a new one, or one that is found at a path.
#[derive(Debug)]
pub struct Namespace {
    pub kind: NamespaceKind,
    pub path: Option<String>,
}

/// The model of a [`Namespace`].
#[verifier::ext_equal]
pub struct NamespaceView {
    pub kind: NamespaceKind,
    pub path: Option<Seq<char>>,
}

impl View for Namespace {
    type V = NamespaceView;

    open spec fn view(&self) -> NamespaceView {
        NamespaceView { kind: self.kind, path: opt_text(self.path) }
    }
}

/// The namespaces that a container has of its own.
pub open spec fn default_kinds() -> Seq<NamespaceKind> {
    seq![
        NamespaceKind::Pid,
        NamespaceKind::Network,
        NamespaceKind::Ipc,
        NamespaceKind::Uts,
        NamespaceKind::Mount,
        NamespaceKind::Cgroup,
    ]
}

/// The kinds of the namespaces of `oci_spec`'s `get_default_namespaces`, which its
/// `Linux::default` holds.
///
/// The clause says which ones they are, in their order.
#[verifier::external_body]
fn oci_default_namespaces() -> (r: Vec<NamespaceKind>)
    ensures
        r@ == default_kinds(),
{
    oci_spec::runtime::get_default_namespaces().iter().map(|n| match n.typ() {
        oci_spec::runtime::LinuxNamespaceType::Mount => NamespaceKind::Mount,
        oci_spec::runtime::LinuxNamespaceType::Cgroup => NamespaceKind::Cgroup,
        oci_spec::runtime::LinuxNamespaceType::Uts => NamespaceKind::Uts,
        oci_spec::runtime::LinuxNamespaceType::Ipc => NamespaceKind::Ipc,
        oci_spec::runtime::LinuxNamespaceType::User => NamespaceKind::User,
        oci_spec::runtime::LinuxNamespaceType::Pid => NamespaceKind::Pid,
        oci_spec::runtime::LinuxNamespaceType::Network => NamespaceKind::Network,
        oci_spec::runtime::LinuxNamespaceType::Time => NamespaceKind::Time,
    }).collect()
}

/// Namespaces of the given kinds. The network namespace is found at a path, or left out where
/// the container shares the host's.
pub open spec fn namespaces_of(kinds: Seq<NamespaceKind>, netns: Option<Seq<char>>) -> Seq<
    NamespaceView,
>
    decreases kinds.len(),
{
    if kinds.len() == 0 {
        seq![]
    } else if kinds.last() != NamespaceKind::Network {
        namespaces_of(kinds.drop_last(), netns).push(
            NamespaceView { kind: kinds.last(), path: None },
        )
    } else if netns is Some {
        namespaces_of(kinds.drop_last(), netns).push(
            NamespaceView { kind: NamespaceKind::Network, path: netns },
        )
    } else {
        namespaces_of(kinds.drop_last(), netns)
    }
}

fn namespaces(netns: &Option<String>) -> (r: Vec<Namespace>)
    ensures
        views(r@) == namespaces_of(default_kinds(), opt_text(*netns)),
{
    let kinds = oci_default_namespaces();
    let ghost all = default_kinds();
    let mut r: Vec<Namespace> = Vec::new();
    let mut i: usize = 0;
    assert(views(r@) =~= namespaces_of(all.take(0), opt_text(*netns)));
    while i < kinds.len()
        invariant
            all == kinds@,
            i <= kinds@.len(),
            views(r@) == namespaces_of(all.take(i as int), opt_text(*netns)),
        decreases kinds@.len() - i,
    {
        assert(all.take(i + 1).drop_last() =~= all.take(i as int));
        let ghost before = views(r@);
        if kinds[i] != NamespaceKind::Network {
            let n = Namespace { kind: kinds[i], path: None };
            r.push(n);
            assert(views(r@) =~= before.push(n@));
        } else if let Some(path) = netns {
            let n = Namespace { kind: NamespaceKind::Network, path: Some(path.clone()) };
            r.push(n);
            assert(views(r@) =~= before.push(n@));
        }
        i = i + 1;
    }
    assert(all.take(i as int) =~= all);
    r
}

// ---------------------------------------------------------------------------------------
// Hidden paths

/// The paths that a container does not see.
pub open spec fn default_masked_paths() -> Seq<Seq<char>> {
    seq![
        "/proc/acpi"@,
        "/proc/asound"@,
        "/proc/kcore"@,
        "/proc/keys"@,
        "/proc/latency_stats"@,
        "/proc/timer_list"@,
        "/proc/timer_stats"@,
        "/proc/sched_debug"@,
        "/sys/firmware"@,
        "/proc/scsi"@,
    ]
}

/// The paths that a container cannot write.
pub open spec fn default_readonly_paths() -> Seq<Seq<char>> {
    seq!["/proc/bus"@, "/proc/fs"@, "/proc/irq"@, "/proc/sys"@, "/proc/sysrq-trigger"@]
}

/// The paths of `oci_spec`'s `get_default_maskedpaths`, which its `Linux::default` holds.
///
/// The clause says which ones they are, in their order.
#[verifier::external_body]
fn oci_masked_paths() -> (r: Vec<String>)
    ensures
        texts(r@) == default_masked_paths(),
{
    oci_spec::runtime::get_default_maskedpaths()
}

/// The paths of `oci_spec`'s `get_default_readonly_paths`, which its `Linux::default` holds.
///
/// The clause says which ones they are, in their order.
#[verifier::external_body]
fn oci_readonly_paths() -> (r: Vec<String>)
    ensures
        texts(r@) == default_readonly_paths(),
{
    oci_spec::runtime::get_default_readonly_paths()
}

/// Whether a container that sees the SELinux file system must see a path.
pub open spec fn is_shown_when_nested(path: Seq<char>) -> bool {
    path == "/sys/fs/selinux"@ || path == "/proc"@
}

/// The paths that may stay hidden though the container sees the SELinux file system.
pub open spec fn hidden_when_nested(paths: Seq<Seq<char>>) -> Seq<Seq<char>>
    decreases paths.len(),
{
    if paths.len() == 0 {
        seq![]
    } else if is_shown_when_nested(paths.last()) {
        hidden_when_nested(paths.drop_last())
    } else {
        hidden_when_nested(paths.drop_last()).push(paths.last())
    }
}

/// The paths that a container does not see; a privileged one sees all of them.
pub open spec fn masked_value(privileged: bool, nested: bool) -> Seq<Seq<char>> {
    if privileged {
        seq![]
    } else if nested {
        hidden_when_nested(default_masked_paths())
    } else {
        default_masked_paths()
    }
}

/// The paths that a container cannot write; a privileged one can write all of them.
pub open spec fn readonly_value(privileged: bool) -> Seq<Seq<char>> {
    if privileged {
        seq![]
    } else {
        default_readonly_paths()
    }
}

fn masked_paths(privileged: bool, nested: bool) -> (r: Vec<String>)
    ensures
        texts(r@) == masked_value(privileged, nested),
{
    if privileged {
        let r: Vec<String> = Vec::new();
        assert(texts(r@) =~= seq![]);
        return r;
    }
    let all = oci_masked_paths();
    if !nested {
        return all;
    }
    let ghost paths = default_masked_paths();
    let mut r: Vec<String> = Vec::new();
    let mut i: usize = 0;
    assert(texts(r@) =~= hidden_when_nested(paths.take(0)));
    while i < all.len()
        invariant
            texts(all@) == paths,
            i <= all@.len(),
            texts(r@) == hidden_when_nested(paths.take(i as int)),
        decreases all@.len() - i,
    {
        assert(paths.take(i + 1).drop_last() =~= paths.take(i as int));
        assert(paths[i as int] == all@[i as int]@);
        if !same_text(all[i].as_str(), "/sys/fs/selinux") && !same_text(all[i].as_str(), "/proc") {
            let ghost before = texts(r@);
            r.push(all[i].clone());
            assert(texts(r@) =~= before.push(all@[i as int]@));
        }
        i = i + 1;
    }
    assert(paths.take(i as int) =~= paths);
    r
}

fn readonly_paths(privileged: bool) -> (r: Vec<String>)
    ensures
        texts(r@) == readonly_value(privileged),
{
    if privileged {
        let r: Vec<String> = Vec::new();
        assert(texts(r@) =~= seq![]);
        r
    } else {
        oci_readonly_paths()
    }
}

// ---------------------------------------------------------------------------------------
// The specification

/// How a container was set up before the runtime starts it, and what the host says.
#[derive(Debug)]
pub struct Launch {
    pub container_id: String,
    /// The state directory of the container.
    pub container_dir: String,
    /// The directory that the runtime is given.
    pub bundle_dir: String,
    pub tty: bool,
    pub rootless: bool,
    pub network: NetworkMode,
    /// The network namespace of the container, unless it shares the host's.
    pub netns_path: Option<String>,
    /// The address of the container on the bridge.
    pub container_ip: Option<String>,
    /// The process that connects the container.
    pub pasta_pid: Option<i32>,
    /// The SELinux labels of the process and of the mounts.
    pub process_label: Option<String>,
    pub mount_label: Option<String>,
    /// What the host says about each device that the user asked for.
    pub device_info: Vec<DeviceInfo>,
    /// The host's configuration of the resolver.
    pub host_resolv: String,
}

/// The capability sets of a process.
pub struct ProcessCapabilities {
    pub bounding: CapabilitySet,
    pub effective: CapabilitySet,
    pub inheritable: CapabilitySet,
    pub permitted: CapabilitySet,
    pub ambient: CapabilitySet,
}

/// The model of [`ProcessCapabilities`].
#[verifier::ext_equal]
pub struct ProcessCapabilitiesView {
    pub bounding: Set<Capability>,
    pub effective: Set<Capability>,
    pub inheritable: Set<Capability>,
    pub permitted: Set<Capability>,
    pub ambient: Set<Capability>,
}

impl View for ProcessCapabilities {
    type V = ProcessCapabilitiesView;

    open spec fn view(&self) -> ProcessCapabilitiesView {
        ProcessCapabilitiesView {
            bounding: self.bounding@,
            effective: self.effective@,
            inheritable: self.inheritable@,
            permitted: self.permitted@,
            ambient: self.ambient@,
        }
    }
}

/// The same capabilities in every set.
pub open spec fn everywhere(set: Set<Capability>) -> ProcessCapabilitiesView {
    ProcessCapabilitiesView {
        bounding: set,
        effective: set,
        inheritable: set,
        permitted: set,
        ambient: set,
    }
}

fn process_capabilities(set: CapabilitySet) -> (r: ProcessCapabilities)
    ensures
        r@ == everywhere(set@),
{
    ProcessCapabilities {
        bounding: set.copy(),
        effective: set.copy(),
        inheritable: set.copy(),
        permitted: set.copy(),
        ambient: set,
    }
}

/// The process of a container.
pub struct ProcessSpec {
    pub args: Vec<String>,
    pub env: Vec<String>,
    pub cwd: String,
    pub terminal: bool,
    pub no_new_privileges: bool,
    pub user: UserSpec,
    pub capabilities: ProcessCapabilities,
    pub selinux_label: Option<String>,
}

/// The model of a [`ProcessSpec`].
#[verifier::ext_equal]
pub struct ProcessSpecView {
    pub args: Seq<Seq<char>>,
    pub env: Seq<Seq<char>>,
    pub cwd: Seq<char>,
    pub terminal: bool,
    pub no_new_privileges: bool,
    pub user: UserSpec,
    pub capabilities: ProcessCapabilitiesView,
    pub selinux_label: Option<Seq<char>>,
}

impl View for ProcessSpec {
    type V = ProcessSpecView;

    open spec fn view(&self) -> ProcessSpecView {
        ProcessSpecView {
            args: texts(self.args@),
            env: texts(self.env@),
            cwd: self.cwd@,
            terminal: self.terminal,
            no_new_privileges: self.no_new_privileges,
            user: self.user,
            capabilities: self.capabilities@,
            selinux_label: opt_text(self.selinux_label),
        }
    }
}

/// What only Linux knows of.
#[derive(Debug)]
pub struct LinuxSpec {
    pub namespaces: Vec<Namespace>,
    pub masked_paths: Vec<String>,
    pub readonly_paths: Vec<String>,
    pub cgroups_path: Option<String>,
    pub mount_label: Option<String>,
    pub seccomp: Option<SeccompSource>,
    pub devices: Devices,
}

/// The model of a [`LinuxSpec`].
#[verifier::ext_equal]
pub struct LinuxSpecView {
    pub namespaces: Seq<NamespaceView>,
    pub masked_paths: Seq<Seq<char>>,
    pub readonly_paths: Seq<Seq<char>>,
    pub cgroups_path: Option<Seq<char>>,
    pub mount_label: Option<Seq<char>>,
    pub seccomp: Option<SeccompSourceView>,
    pub devices: DevicesView,
}

impl View for LinuxSpec {
    type V = LinuxSpecView;

    open spec fn view(&self) -> LinuxSpecView {
        LinuxSpecView {
            namespaces: views(self.namespaces@),
            masked_paths: texts(self.masked_paths@),
            readonly_paths: texts(self.readonly_paths@),
            cgroups_path: opt_text(self.cgroups_path),
            mount_label: opt_text(self.mount_label),
            seccomp: opt_source(self.seccomp),
            devices: self.devices@,
        }
    }
}

/// What the container runtime is told.
pub struct RuntimeSpec {
    /// The root file system, below the bundle.
    pub root_path: String,
    pub root_readonly: bool,
    pub process: ProcessSpec,
    pub hostname: String,
    pub linux: LinuxSpec,
    pub mounts: Vec<Mount>,
    /// The arguments with which the runner is called when the container has stopped.
    pub poststop_args: Vec<String>,
    /// How many seconds that may take.
    pub poststop_timeout: i64,
}

/// The model of a [`RuntimeSpec`].
#[verifier::ext_equal]
pub struct RuntimeSpecView {
    pub root_path: Seq<char>,
    pub root_readonly: bool,
    pub process: ProcessSpecView,
    pub hostname: Seq<char>,
    pub linux: LinuxSpecView,
    pub mounts: Seq<MountView>,
    pub poststop_args: Seq<Seq<char>>,
    pub poststop_timeout: int,
}

impl View for RuntimeSpec {
    type V = RuntimeSpecView;

    open spec fn view(&self) -> RuntimeSpecView {
        RuntimeSpecView {
            root_path: self.root_path@,
            root_readonly: self.root_readonly,
            process: self.process@,
            hostname: self.hostname@,
            linux: self.linux@,
            mounts: views(self.mounts@),
            poststop_args: texts(self.poststop_args@),
            poststop_timeout: self.poststop_timeout as int,
        }
    }
}

/// What the runtime is told, and the files that have to be there before it starts.
pub struct Bundle {
    pub config: RuntimeSpec,
    pub etc: EtcConfig,
}

/// The model of a [`Bundle`].
#[verifier::ext_equal]
pub struct BundleView {
    pub config: RuntimeSpecView,
    pub etc: EtcConfigView,
}

impl View for Bundle {
    type V = BundleView;

    open spec fn view(&self) -> BundleView {
        BundleView { config: self.config@, etc: self.etc@ }
    }
}

/// The SELinux file system, for a container that is to see it.
pub open spec fn selinux_mount_list(nested: bool) -> Seq<MountView> {
    if nested {
        seq![mount("/sys/fs/selinux"@, "bind"@, "/sys/fs/selinux"@, seq!["rbind"@])]
    } else {
        seq![]
    }
}

/// The init process at its place in the container.
pub open spec fn init_mount_list(init: Option<Seq<char>>) -> Seq<MountView> {
    match init {
        Some(path) => seq![
            mount("/dev/init"@, "bind"@, path, seq!["bind"@, "ro"@, "nosuid"@, "nodev"@]),
        ],
        None => seq![],
    }
}

/// All mounts of a container.
pub open spec fn mounts_value(cli: Cli, settings: SettingsView, launch: Launch) -> Seq<MountView> {
    system_mount_list(cli.read_only && cli.read_only_tmpfs, settings.systemd)
        + volume_mount_list(views(cli.volumes@)) + device_mount_list(
        views(cli.device@),
        launch.rootless,
    ) + selinux_mount_list(settings.security.selinux_nested) + etc_mount_list(launch.bundle_dir@)
        + init_mount_list(settings.init)
}

/// The arguments of the cleanup of a container.
pub open spec fn poststop_value(
    container_dir: Seq<char>,
    container_id: Seq<char>,
    container_ip: Option<Seq<char>>,
    pasta_pid: Option<i32>,
) -> Seq<Seq<char>> {
    let head = seq![
        "cfsrun"@,
        "--internal-cleanup"@,
        "--container-dir"@,
        container_dir,
        "--container-id"@,
        container_id,
    ];
    let with_ip = match container_ip {
        Some(ip) => head + seq!["--container-ip"@, ip],
        None => head,
    };
    match pasta_pid {
        Some(pid) => with_ip + seq!["--pasta-pid"@, signed_decimal(pid as int)],
        None => with_ip,
    }
}

/// The devices that were asked for. Where an ordinary user started the container they are only
/// mounted.
pub open spec fn named_devices(cli: Cli, launch: Launch) -> Result<DevicesView, RunErrorView> {
    if launch.rootless {
        Ok(no_devices())
    } else {
        devices_value(views(cli.device@), launch.device_info@)
    }
}

/// The devices of a container. A privileged one has access to all of them.
pub open spec fn devices_for(cli: Cli, launch: Launch) -> Result<DevicesView, RunErrorView> {
    match named_devices(cli, launch) {
        Err(e) => Err(e),
        Ok(d) => if cli.privileged {
            Ok(with_free_access(d))
        } else {
            Ok(d)
        },
    }
}

/// What only Linux knows of.
pub open spec fn linux_value(
    cli: Cli,
    settings: SettingsView,
    launch: Launch,
    devices: DevicesView,
) -> LinuxSpecView {
    LinuxSpecView {
        namespaces: namespaces_of(default_kinds(), opt_text(launch.netns_path)),
        masked_paths: masked_value(cli.privileged, settings.security.selinux_nested),
        readonly_paths: readonly_value(cli.privileged),
        cgroups_path: if launch.rootless {
            None
        } else {
            Some("cfsrun/"@ + launch.container_id@)
        },
        mount_label: if settings.security.selinux_disabled {
            None
        } else {
            opt_text(launch.mount_label)
        },
        seccomp: settings.security.seccomp,
        devices,
    }
}

/// The process of a container.
pub open spec fn process_value(settings: SettingsView, launch: Launch) -> ProcessSpecView {
    ProcessSpecView {
        args: settings.args,
        env: settings.env,
        cwd: settings.cwd,
        terminal: launch.tty,
        no_new_privileges: settings.security.no_new_privileges,
        user: settings.user,
        capabilities: everywhere(settings.capabilities),
        selinux_label: if settings.security.selinux_disabled {
            None
        } else {
            opt_text(launch.process_label)
        },
    }
}

/// The files under `/etc` of a container.
pub open spec fn etc_value(cli: Cli, settings: SettingsView, launch: Launch) -> EtcConfigView {
    etc_config_value(
        launch.bundle_dir@,
        settings.hostname,
        views(cli.add_host@),
        resolv_text(
            launch.host_resolv@,
            dns_value(texts(cli.dns@), launch.network),
            texts(cli.dns_search@),
            texts(cli.dns_option@),
        ),
    )
}

/// What the runtime is told, and the files that have to be there.
pub open spec fn bundle_value(cli: Cli, settings: SettingsView, launch: Launch) -> Result<
    BundleView,
    RunErrorView,
> {
    match devices_for(cli, launch) {
        Err(e) => Err(e),
        Ok(devices) => Ok(
            BundleView {
                config: RuntimeSpecView {
                    root_path: "rootfs"@,
                    root_readonly: cli.read_only,
                    process: process_value(settings, launch),
                    hostname: settings.hostname,
                    linux: linux_value(cli, settings, launch, devices),
                    mounts: mounts_value(cli, settings, launch),
                    poststop_args: poststop_value(
                        launch.container_dir@,
                        launch.container_id@,
                        opt_text(launch.container_ip),
                        launch.pasta_pid,
                    ),
                    poststop_timeout: 10,
                },
                etc: etc_value(cli, settings, launch),
            },
        ),
    }
}

fn container_mounts(cli: &Cli, settings: &Settings, launch: &Launch, etc: &Vec<Mount>) -> (r: Vec<
    Mount,
>)
    requires
        views(etc@) == etc_mount_list(launch.bundle_dir@),
    ensures
        views(r@) == mounts_value(*cli, settings@, *launch),
{
    let mounts = system_mounts(cli.read_only && cli.read_only_tmpfs, settings.systemd);
    let mounts = append_mounts(mounts, &volume_mounts(&cli.volumes));
    let mounts = append_mounts(mounts, &device_mounts(&cli.device, launch.rootless));
    let mut selinux: Vec<Mount> = Vec::new();
    if settings.security.selinux_nested {
        selinux.push(Mount::new("/sys/fs/selinux", "bind", "/sys/fs/selinux", one("rbind")));
    }
    assert(views(selinux@) =~= selinux_mount_list(settings.security.selinux_nested));
    let mounts = append_mounts(mounts, &selinux);
    let mounts = append_mounts(mounts, etc);
    let mut init: Vec<Mount> = Vec::new();
    if let Some(path) = &settings.init {
        init.push(
            Mount::new("/dev/init", "bind", path.as_str(), four("bind", "ro", "nosuid", "nodev")),
        );
    }
    assert(views(init@) =~= init_mount_list(opt_text(settings.init)));
    append_mounts(mounts, &init)
}

fn poststop_args(launch: &Launch) -> (r: Vec<String>)
    ensures
        texts(r@) == poststop_value(
            launch.container_dir@,
            launch.container_id@,
            opt_text(launch.container_ip),
            launch.pasta_pid,
        ),
{
    let mut r: Vec<String> = vec![
        "cfsrun".to_owned(),
        "--internal-cleanup".to_owned(),
        "--container-dir".to_owned(),
        launch.container_dir.clone(),
        "--container-id".to_owned(),
        launch.container_id.clone(),
    ];
    if let Some(ip) = &launch.container_ip {
        r.push("--container-ip".to_owned());
        r.push(ip.clone());
    }
    if let Some(pid) = launch.pasta_pid {
        r.push("--pasta-pid".to_owned());
        r.push(write_signed_decimal(pid));
    }
    assert(texts(r@) =~= poststop_value(
        launch.container_dir@,
        launch.container_id@,
        opt_text(launch.container_ip),
        launch.pasta_pid,
    ));
    r
}

/// What the runtime is told, and the files that have to be there before it starts.
pub fn build_runtime_spec(cli: &Cli, settings: Settings, launch: Launch) -> (r: Result<
    Bundle,
    RunError,
>)
    requires
        launch.rootless || launch.device_info@.len() == cli.device@.len(),
    ensures
        seen(r) == bundle_value(*cli, settings@, launch),
{
    let mut devices = if launch.rootless {
        let d = Devices { nodes: Vec::new(), rules: Vec::new() };
        assert(d@ =~= no_devices());
        d
    } else {
        match collect_devices(&cli.device, &launch.device_info) {
            Ok(d) => d,
            Err(e) => {
                return Err(e);
            },
        }
    };
    if cli.privileged {
        allow_all_devices(&mut devices);
    }
    let dns = effective_dns(&cli.dns, launch.network);
    let etc = generate_etc_config(
        launch.bundle_dir.as_str(),
        settings.hostname.as_str(),
        &cli.add_host,
        &dns,
        &cli.dns_search,
        &cli.dns_option,
        launch.host_resolv.as_str(),
    );
    let mounts = container_mounts(cli, &settings, &launch, &etc.mounts);
    let poststop_args = poststop_args(&launch);
    let nested = settings.security.selinux_nested;
    let disabled = settings.security.selinux_disabled;
    let linux = LinuxSpec {
        namespaces: namespaces(&launch.netns_path),
        masked_paths: masked_paths(cli.privileged, nested),
        readonly_paths: readonly_paths(cli.privileged),
        cgroups_path: if launch.rootless {
            None
        } else {
            Some(concat2("cfsrun/", launch.container_id.as_str()))
        },
        mount_label: if disabled {
            None
        } else {
            launch.mount_label
        },
        seccomp: settings.security.seccomp,
        devices,
    };
    let process = ProcessSpec {
        args: settings.args,
        env: settings.env,
        cwd: settings.cwd,
        terminal: launch.tty,
        no_new_privileges: settings.security.no_new_privileges,
        user: settings.user,
        capabilities: process_capabilities(settings.capabilities),
        selinux_label: if disabled {
            None
        } else {
            launch.process_label
        },
    };
    Ok(
        Bundle {
            config: RuntimeSpec {
                root_path: "rootfs".to_owned(),
                root_readonly: cli.read_only,
                process,
                hostname: settings.hostname,
                linux,
                mounts,
                poststop_args,
                poststop_timeout: 10,
            },
            etc,
        },
    )
}

/// Whether published ports go unused because the container shares the host's network.
pub fn publish_is_unused(cli: &Cli, netns_path: &Option<String>) -> (r: bool)
    ensures
        r == (cli.publish@.len() > 0 && netns_path is None),
{
    cli.publish.len() > 0 && netns_path.is_none()
}

/// Whether a terminal is allocated: one that was asked for, where there is one to connect it to.
pub fn effective_tty(requested: bool, stdin_is_terminal: bool) -> (r: bool)
    ensures
        r == (requested && stdin_is_terminal),
{
    requested && stdin_is_terminal
}

// ---------------------------------------------------------------------------------------
// Laws

proof fn lemma_namespace_kinds(kinds: Seq<NamespaceKind>, netns: Option<Seq<char>>, n: NamespaceView)
    ensures
        namespaces_of(kinds, netns).contains(n) <==> kinds.contains(n.kind) && if n.kind
            == NamespaceKind::Network {
            netns is Some && n.path == netns
        } else {
            n.path is None
        },
    decreases kinds.len(),
{
    if kinds.len() > 0 {
        let front = kinds.drop_last();
        let last = kinds.last();
        let before = namespaces_of(front, netns);
        let r = namespaces_of(kinds, netns);
        lemma_namespace_kinds(front, netns, n);
        assert(kinds =~= front.push(last));
        assert(kinds[kinds.len() - 1] == last);
        if front.contains(n.kind) {
            let k = choose|k: int| 0 <= k < front.len() && front[k] == n.kind;
            assert(kinds[k] == n.kind);
        }
        if kinds.contains(n.kind) && n.kind != last {
            let k = choose|k: int| 0 <= k < kinds.len() && kinds[k] == n.kind;
            assert(front[k] == n.kind);
        }
        if before.contains(n) {
            let k = choose|k: int| 0 <= k < before.len() && before[k] == n;
            assert(r[k] == n);
        }
        if r.contains(n) {
            let k = choose|k: int| 0 <= k < r.len() && r[k] == n;
            if k < before.len() {
                assert(before[k] == n);
            }
        }
        if r.len() > before.len() {
            assert(r[before.len() as int] == r.last());
        }
    }
}

/// Law: a container that shares the host's network has no network namespace of its own; any
/// other one has the namespace that was made for it, and no second one.
pub proof fn law_network_namespace(netns: Option<Seq<char>>, n: NamespaceView)
    requires
        n.kind == NamespaceKind::Network,
    ensures
        namespaces_of(default_kinds(), netns).contains(n) <==> netns is Some && n.path == netns,
{
    lemma_namespace_kinds(default_kinds(), netns, n);
    assert(default_kinds()[1] == NamespaceKind::Network);
}

/// Whether devices of a kind may be used freely: one rule gives all access to every device of the
/// kind, and no rule takes any away.
pub open spec fn is_free(rules: Seq<DeviceRuleView>, kind: DeviceKind) -> bool {
    &&& rules.contains(free_access(kind))
    &&& forall|i: int| 0 <= i < rules.len() ==> (#[trigger] rules[i]).allow
}

/// Law: a privileged container has access to every device of the host, whether any was asked for
/// or not.
pub proof fn law_privileged_has_device_access(cli: Cli, settings: SettingsView, launch: Launch)
    requires
        cli.privileged,
    ensures
        bundle_value(cli, settings, launch) matches Ok(b) ==> {
            &&& is_free(b.config.linux.devices.rules, DeviceKind::Char)
            &&& is_free(b.config.linux.devices.rules, DeviceKind::Block)
        },
{
    law_device_rules_allow(views(cli.device@), launch.device_info@);
    if let Ok(d) = devices_for(cli, launch) {
        let n = d.rules.len();
        assert(d.rules[n - 2] == free_access(DeviceKind::Char));
        assert(d.rules[n - 1] == free_access(DeviceKind::Block));
    }
}

/// Law: a privileged container sees and may write every path, and an SELinux label is set only
/// where SELinux is in use.
pub proof fn law_privileged_runtime(cli: Cli, settings: SettingsView, launch: Launch)
    ensures
        bundle_value(cli, settings, launch) matches Ok(b) ==> {
            &&& cli.privileged ==> b.config.linux.masked_paths.len() == 0
            &&& cli.privileged ==> b.config.linux.readonly_paths.len() == 0
            &&& settings.security.selinux_disabled ==> b.config.process.selinux_label is None
            &&& settings.security.selinux_disabled ==> b.config.linux.mount_label is None
        },
{
}

/// Law: a privileged container from which nothing is dropped is told to be unconfined: every
/// capability in every set, no seccomp profile, no SELinux label, no path hidden or protected, and
/// access to every device.
pub proof fn law_privileged_container(
    cli: Cli,
    config: ImageConfig,
    present: Seq<bool>,
    default_profile: Seq<char>,
    launch: Launch,
)
    requires
        cli.privileged,
        cli.cap_drop@.len() == 0,
    ensures
        settings_value(cli, config, launch.container_id@, present, default_profile) matches Ok(s)
            ==> (bundle_value(cli, s, launch) matches Ok(b) ==> {
            &&& b.config.process.capabilities == everywhere(Set::<Capability>::full())
            &&& b.config.process.selinux_label is None
            &&& b.config.linux.seccomp is None
            &&& b.config.linux.mount_label is None
            &&& b.config.linux.masked_paths.len() == 0
            &&& b.config.linux.readonly_paths.len() == 0
            &&& is_free(b.config.linux.devices.rules, DeviceKind::Char)
            &&& is_free(b.config.linux.devices.rules, DeviceKind::Block)
        }),
{
    if let Ok(s) = settings_value(cli, config, launch.container_id@, present, default_profile) {
        law_privileged_has_device_access(cli, s, launch);
    }
    law_privileged_settings(cli, config, launch.container_id@, present, default_profile);
}

/// Law: a volume that the user asked for is among the mounts, behind those that every container
/// has, and so is every device.
pub proof fn law_what_is_asked_for_is_mounted(cli: Cli, settings: SettingsView, launch: Launch)
    ensures
        bundle_value(cli, settings, launch) matches Ok(b) ==> {
            let first = system_mount_list(
                cli.read_only && cli.read_only_tmpfs,
                settings.systemd,
            ).len();
            &&& forall|i: int|
                0 <= i < cli.volumes@.len() ==> b.config.mounts[first + i]
                    == volume_mount(#[trigger] cli.volumes@[i]@)
            &&& forall|i: int|
                0 <= i < cli.device@.len() ==> b.config.mounts[first + cli.volumes@.len() + i]
                    == device_mount(#[trigger] cli.device@[i]@, launch.rootless)
        },
{
}

/// What a bundle says, where the command line, the image and the host give one.
pub open spec fn bundle_for(
    cli: Cli,
    config: ImageConfig,
    present: Seq<bool>,
    default_profile: Seq<char>,
    launch: Launch,
) -> Option<BundleView> {
    match settings_value(cli, config, launch.container_id@, present, default_profile) {
        Ok(s) => match bundle_value(cli, s, launch) {
            Ok(b) => Some(b),
            Err(_) => None,
        },
        Err(_) => None,
    }
}

/// Law: the process of a container runs as the user that was asked for, and else as that of the
/// image where it is given in numbers, and else as root; and in the directory that was asked for,
/// and else in that of the image, and else in the root directory. It has a terminal where one was
/// allocated.
pub proof fn law_the_process_is_the_users(
    cli: Cli,
    config: ImageConfig,
    present: Seq<bool>,
    default_profile: Seq<char>,
    launch: Launch,
)
    ensures
        bundle_for(cli, config, present, default_profile, launch) matches Some(b) ==> {
            let p = b.config.process;
            &&& cli.user matches Some(user) ==> p.user == user
            &&& cli.user is None && config.user is Some ==> match user_value(config.user->0@) {
                Ok(user) => p.user == user,
                Err(_) => p.user.uid == 0 && p.user.gid == 0,
            }
            &&& cli.user is None && config.user is None ==> p.user.uid == 0 && p.user.gid == 0
            &&& cli.workdir_override matches Some(dir) ==> p.cwd == dir@
            &&& cli.workdir_override is None && config.working_dir is Some ==> p.cwd
                == config.working_dir->0@
            &&& cli.workdir_override is None && config.working_dir is None ==> p.cwd == seq!['/']
            &&& p.terminal == launch.tty
        },
{
    reveal_strlit("/");
    assert("/"@ =~= seq!['/']);
}

/// Law: the process of a container is the command that was asked for, and else that of the image;
/// where an init process runs it, it stands behind two words that call that one.
pub proof fn law_the_process_is_the_command(
    cli: Cli,
    config: ImageConfig,
    present: Seq<bool>,
    default_profile: Seq<char>,
    launch: Launch,
)
    ensures
        bundle_for(cli, config, present, default_profile, launch) matches Some(b) ==> {
            let command = if cli.cmd@.len() > 0 {
                texts(cli.cmd@)
            } else {
                (match config.entrypoint {
                    Some(list) => texts(list@),
                    None => seq![],
                }) + (match config.cmd {
                    Some(list) => texts(list@),
                    None => seq![],
                })
            };
            let systemd = match cli.systemd {
                SystemdMode::Always => true,
                SystemdMode::Off => false,
                SystemdMode::Auto => "systemd"@.is_suffix_of(command[0])
                    || "/sbin/init"@.is_suffix_of(command[0]),
            };
            &&& command.len() > 0
            &&& cli.no_init || systemd ==> b.config.process.args == command
            &&& !cli.no_init && !systemd ==> b.config.process.args == seq!["/dev/init"@, "--"@]
                + command
        },
{
    if let Ok(command) = chosen_command(cli, config) {
        law_systemd_is_noticed(cli.systemd, command);
        let none = Seq::<Seq<char>>::empty();
        assert(none + none =~= none);
        if cli.cmd@.len() == 0 {
            assert(texts(cli.cmd@).len() == 0);
        } else {
            assert(texts(cli.cmd@).len() > 0);
        }
    }
}

/// Law: the environment of the process is the one that the image and the user give; under systemd
/// the start of the container's name follows.
pub proof fn law_the_process_has_its_environment(
    cli: Cli,
    config: ImageConfig,
    present: Seq<bool>,
    default_profile: Seq<char>,
    launch: Launch,
    i: int,
)
    ensures
        bundle_for(cli, config, present, default_profile, launch) matches Some(b) ==> {
            let env = env_value(
                opt_texts(config.env),
                cli.tty,
                texts(cli.unsetenv@),
                texts(cli.envs@),
            );
            let command = command_value(
                texts(cli.cmd@),
                opt_texts(config.entrypoint),
                opt_texts(config.cmd),
            )->Ok_0;
            &&& b.config.process.env == if systemd_wanted(cli.systemd, command) {
                env.push("container_uuid="@ + byte_prefix(launch.container_id@, 32))
            } else {
                env
            }
            &&& 0 <= i < cli.envs@.len() && (forall|j: int|
                i < j < cli.envs@.len() ==> env_key(#[trigger] texts(cli.envs@)[j]) != env_key(
                    cli.envs@[i]@,
                )) ==> b.config.process.env.contains(cli.envs@[i]@)
        },
{
    let set = texts(cli.envs@);
    let env = env_value(opt_texts(config.env), cli.tty, texts(cli.unsetenv@), set);
    if 0 <= i < set.len() && (forall|j: int|
        i < j < set.len() ==> env_key(#[trigger] set[j]) != env_key(set[i])) {
        law_last_setting_counts(opt_texts(config.env), cli.tty, texts(cli.unsetenv@), set, i);
        let k = choose|k: int| 0 <= k < env.len() && env[k] == set[i];
        let more = env.push("container_uuid="@ + byte_prefix(launch.container_id@, 32));
        assert(more[k] == set[i]);
        assert(more.contains(set[i]));
    }
}

/// Law: the process holds exactly the capabilities that were worked out, in each of its sets; it
/// may gain privileges, is labelled and is confined as the security options say.
pub proof fn law_the_process_is_confined_as_asked(
    cli: Cli,
    config: ImageConfig,
    present: Seq<bool>,
    default_profile: Seq<char>,
    launch: Launch,
)
    ensures
        bundle_for(cli, config, present, default_profile, launch) matches Some(b) ==> {
            let p = b.config.process;
            let caps = effective_set(cli.privileged, texts(cli.cap_add@), texts(cli.cap_drop@));
            let security = security_settings_value(
                cli.seccomp_policy,
                label_text(config.labels@, "io.containers.seccomp.profile"@),
                default_profile,
                cli.privileged,
                views(cli.security_opt@),
            );
            &&& caps is Ok && security is Ok
            &&& p.capabilities.bounding == caps->Ok_0
            &&& p.capabilities.effective == caps->Ok_0
            &&& p.capabilities.inheritable == caps->Ok_0
            &&& p.capabilities.permitted == caps->Ok_0
            &&& p.capabilities.ambient == caps->Ok_0
            &&& p.no_new_privileges == security->Ok_0.no_new_privileges
            &&& b.config.linux.seccomp == security->Ok_0.seccomp
            &&& security->Ok_0.selinux_disabled ==> p.selinux_label is None
                && b.config.linux.mount_label is None
            &&& !security->Ok_0.selinux_disabled ==> p.selinux_label == opt_text(
                launch.process_label,
            ) && b.config.linux.mount_label == opt_text(launch.mount_label)
        },
{
}

/// Law: the runtime is told the root file system of the bundle, read-only where that was asked for,
/// and the host name that was asked for, or else the start of the container's name. Only root has
/// a control group of its own, which has the container's name.
pub proof fn law_the_runtime_is_told_the_basics(
    cli: Cli,
    config: ImageConfig,
    present: Seq<bool>,
    default_profile: Seq<char>,
    launch: Launch,
)
    ensures
        bundle_for(cli, config, present, default_profile, launch) matches Some(b) ==> {
            &&& b.config.root_path == "rootfs"@
            &&& b.config.root_readonly == cli.read_only
            &&& cli.hostname matches Some(name) ==> b.config.hostname == name@
            &&& cli.hostname is None && (forall|i: int|
                0 <= i < launch.container_id@.len() ==> #[trigger] launch.container_id@[i]
                    <= '\u{7f}') ==> b.config.hostname == launch.container_id@.take(
                if launch.container_id@.len() <= 12 {
                    launch.container_id@.len() as int
                } else {
                    12
                },
            )
            &&& launch.rootless ==> b.config.linux.cgroups_path is None
            &&& !launch.rootless ==> b.config.linux.cgroups_path == Some(
                "cfsrun/"@ + launch.container_id@,
            )
            &&& b.config.poststop_timeout == 10
        },
{
    if forall|i: int|
        0 <= i < launch.container_id@.len() ==> #[trigger] launch.container_id@[i] <= '\u{7f}' {
        law_ascii_prefix(launch.container_id@, 12);
    }
}

/// Law: when the container has stopped, the runner is called to clean up its directory under its
/// name, with the address and the process that connected it, each behind its option and where there
/// is one. The process is read back from its text.
pub proof fn law_the_cleanup_is_told_everything(
    cli: Cli,
    config: ImageConfig,
    present: Seq<bool>,
    default_profile: Seq<char>,
    launch: Launch,
)
    ensures
        bundle_for(cli, config, present, default_profile, launch) matches Some(b) ==> {
            let args = b.config.poststop_args;
            let ip = if launch.container_ip is Some {
                2
            } else {
                0int
            };
            let pid = if launch.pasta_pid is Some {
                2
            } else {
                0int
            };
            &&& args.len() == 6 + ip + pid
            &&& args[0] == "cfsrun"@ && args[1] == "--internal-cleanup"@
            &&& args[2] == "--container-dir"@ && args[3] == launch.container_dir@
            &&& args[4] == "--container-id"@ && args[5] == launch.container_id@
            &&& launch.container_ip is Some ==> args[6] == "--container-ip"@ && args[7]
                == launch.container_ip->0@
            &&& launch.pasta_pid is Some ==> args[6 + ip] == "--pasta-pid"@ && parsed_i32(
                args[7 + ip],
            ) == launch.pasta_pid
        },
{
    if launch.pasta_pid is Some {
        law_signed_numbers_that_fit_are_read(launch.pasta_pid->0 as int);
    }
}

/// Law: a container has namespaces of its own for processes, inter-process communication, names,
/// mounts and control groups, each once and new, and one for the network where it was given one;
/// and no other.
pub proof fn law_the_namespaces_of_a_container(
    cli: Cli,
    config: ImageConfig,
    present: Seq<bool>,
    default_profile: Seq<char>,
    launch: Launch,
    n: NamespaceView,
)
    ensures
        bundle_for(cli, config, present, default_profile, launch) matches Some(b) ==> {
            &&& b.config.linux.namespaces.contains(n) <==> match n.kind {
                NamespaceKind::Network => launch.netns_path is Some && n.path == Some(
                    launch.netns_path->0@,
                ),
                NamespaceKind::User => false,
                NamespaceKind::Time => false,
                _ => n.path is None,
            }
            &&& b.config.linux.namespaces.len() == if launch.netns_path is Some {
                6
            } else {
                5int
            }
        },
{
    let kinds = default_kinds();
    let netns = opt_text(launch.netns_path);
    lemma_namespace_kinds(kinds, netns, n);
    assert(kinds[0] == NamespaceKind::Pid && kinds[1] == NamespaceKind::Network && kinds[2]
        == NamespaceKind::Ipc);
    assert(kinds[3] == NamespaceKind::Uts && kinds[4] == NamespaceKind::Mount && kinds[5]
        == NamespaceKind::Cgroup);
    reveal_with_fuel(namespaces_of, 7);
    assert(kinds.drop_last() =~= kinds.take(5));
    assert(kinds.take(5).drop_last() =~= kinds.take(4));
    assert(kinds.take(4).drop_last() =~= kinds.take(3));
    assert(kinds.take(3).drop_last() =~= kinds.take(2));
    assert(kinds.take(2).drop_last() =~= kinds.take(1));
    assert(kinds.take(1).drop_last() =~= kinds.take(0));
}

/// Law: a container that is not privileged does not see these paths and cannot write those; one
/// that sees the SELinux file system does not lose that by it.
pub proof fn law_hidden_and_protected_paths(
    cli: Cli,
    config: ImageConfig,
    present: Seq<bool>,
    default_profile: Seq<char>,
    launch: Launch,
)
    requires
        !cli.privileged,
    ensures
        bundle_for(cli, config, present, default_profile, launch) matches Some(b) ==> {
            &&& b.config.linux.masked_paths == seq![
                "/proc/acpi"@,
                "/proc/asound"@,
                "/proc/kcore"@,
                "/proc/keys"@,
                "/proc/latency_stats"@,
                "/proc/timer_list"@,
                "/proc/timer_stats"@,
                "/proc/sched_debug"@,
                "/sys/firmware"@,
                "/proc/scsi"@,
            ]
            &&& b.config.linux.readonly_paths == seq![
                "/proc/bus"@,
                "/proc/fs"@,
                "/proc/irq"@,
                "/proc/sys"@,
                "/proc/sysrq-trigger"@,
            ]
            &&& !b.config.linux.masked_paths.contains("/proc"@)
            &&& !b.config.linux.masked_paths.contains("/sys/fs/selinux"@)
        },
{
    reveal_strlit("/sys/fs/selinux");
    reveal_strlit("/proc");
    reveal_strlit("/proc/acpi");
    reveal_strlit("/proc/asound");
    reveal_strlit("/proc/kcore");
    reveal_strlit("/proc/keys");
    reveal_strlit("/proc/latency_stats");
    reveal_strlit("/proc/timer_list");
    reveal_strlit("/proc/timer_stats");
    reveal_strlit("/proc/sched_debug");
    reveal_strlit("/sys/firmware");
    reveal_strlit("/proc/scsi");
    let all = default_masked_paths();
    assert forall|i: int| 0 <= i < all.len() implies !is_shown_when_nested(#[trigger] all[i]) by {
        assert("/sys/fs/selinux"@.len() == 15 && "/proc"@.len() == 5);
        assert("/sys/fs/selinux"@[1] == 's');
        assert(all[i].len() > 5);
        if all[i].len() == 15 {
            assert(all[i][1] == 'p');
        }
    }
    lemma_hidden_when_nested(all);
}

proof fn lemma_hidden_when_nested(paths: Seq<Seq<char>>)
    requires
        forall|i: int| 0 <= i < paths.len() ==> !is_shown_when_nested(#[trigger] paths[i]),
    ensures
        hidden_when_nested(paths) == paths,
    decreases paths.len(),
{
    if paths.len() > 0 {
        let front = paths.drop_last();
        assert forall|i: int| 0 <= i < front.len() implies !is_shown_when_nested(
            #[trigger] front[i],
        ) by {
            assert(front[i] == paths[i]);
        }
        lemma_hidden_when_nested(front);
        assert(paths.last() == paths[paths.len() - 1]);
        assert(paths =~= front.push(paths.last()));
    }
}

/// Law: paths that a container with the SELinux file system must see are not hidden from it,
/// whatever is hidden from others, and nothing else is shown to it.
pub proof fn law_nested_containers_see_more(paths: Seq<Seq<char>>)
    ensures
        hidden_when_nested(paths) == paths.filter(
            |p: Seq<char>| p != "/sys/fs/selinux"@ && p != "/proc"@,
        ),
    decreases paths.len(),
{
    let f = |p: Seq<char>| p != "/sys/fs/selinux"@ && p != "/proc"@;
    reveal(Seq::filter);
    if paths.len() > 0 {
        law_nested_containers_see_more(paths.drop_last());
    } else {
        assert(paths.filter(f) =~= seq![]);
    }
}

/// Law: the mounts of a container are, in this order: those that every container has, with what a
/// read-only one and systemd need; the volumes; the devices; the SELinux file system where it was
/// asked for; the files under `/etc`; and the init process where one is used, at the place where
/// the command calls it.
pub proof fn law_the_mounts_of_a_container(
    cli: Cli,
    config: ImageConfig,
    present: Seq<bool>,
    default_profile: Seq<char>,
    launch: Launch,
)
    ensures
        settings_value(cli, config, launch.container_id@, present, default_profile) matches Ok(s)
            ==> (bundle_value(cli, s, launch) matches Ok(b) ==> {
            &&& b.config.mounts == system_mount_list(
                cli.read_only && cli.read_only_tmpfs,
                s.systemd,
            ) + volume_mount_list(views(cli.volumes@)) + device_mount_list(
                views(cli.device@),
                launch.rootless,
            ) + (if s.security.selinux_nested {
                seq![
                    MountView {
                        destination: "/sys/fs/selinux"@,
                        typ: Some("bind"@),
                        source: Some("/sys/fs/selinux"@),
                        options: Some(seq!["rbind"@]),
                    },
                ]
            } else {
                seq![]
            }) + b.etc.mounts + (if s.init is Some {
                seq![
                    MountView {
                        destination: "/dev/init"@,
                        typ: Some("bind"@),
                        source: s.init,
                        options: Some(seq!["bind"@, "ro"@, "nosuid"@, "nodev"@]),
                    },
                ]
            } else {
                seq![]
            })
            &&& s.init is Some ==> b.config.process.args[0] == "/dev/init"@ && s.init
                == first_present(init_places(), present)
        }),
{
}

/// Law: the files under `/etc` lie in the bundle and say what was asked for: the host name of the
/// container, the hosts that the user adds, and a configuration of the resolver with the servers,
/// domains and options of the user, on top of the host's.
pub proof fn law_the_files_of_a_container(
    cli: Cli,
    config: ImageConfig,
    present: Seq<bool>,
    default_profile: Seq<char>,
    launch: Launch,
)
    ensures
        bundle_for(cli, config, present, default_profile, launch) matches Some(b) ==> b.etc
            == etc_config_value(
            launch.bundle_dir@,
            b.config.hostname,
            views(cli.add_host@),
            resolv_text(
                launch.host_resolv@,
                dns_value(texts(cli.dns@), launch.network),
                texts(cli.dns_search@),
                texts(cli.dns_option@),
            ),
        ),
{
}

/// Law: root's devices are made in the container, one for each that was asked for and no other,
/// with the rules that go with them; an ordinary user's are not. A device that is none ends the
/// start of root's container, and of nobody else's.
pub proof fn law_the_devices_of_a_container(cli: Cli, settings: SettingsView, launch: Launch)
    ensures
        launch.rootless ==> (bundle_value(cli, settings, launch) matches Ok(b)
            && b.config.linux.devices.nodes.len() == 0 && b.config.linux.devices.rules.len()
            == if cli.privileged {
            2
        } else {
            0int
        }),
        !launch.rootless ==> match devices_value(views(cli.device@), launch.device_info@) {
            Err(e) => bundle_value(cli, settings, launch) == Err::<BundleView, RunErrorView>(e),
            Ok(d) => bundle_value(cli, settings, launch) matches Ok(b)
                && b.config.linux.devices.nodes == d.nodes && d.rules
                == b.config.linux.devices.rules.take(d.rules.len() as int)
                && b.config.linux.devices.rules.len() == d.rules.len() + if cli.privileged {
                2
            } else {
                0int
            },
        },
{
    if !launch.rootless {
        if let Ok(d) = devices_value(views(cli.device@), launch.device_info@) {
            let all = with_free_access(d).rules;
            assert(all.take(d.rules.len() as int) =~= d.rules);
            assert(d.rules.take(d.rules.len() as int) =~= d.rules);
        }
    }
}

} // verus!
