use composefs_run::capability::Capability;
use composefs_run::cli::Cli;
use composefs_run::device::{
    add_device_to_spec, collect_devices, DeviceInfo, DeviceKind, Devices, FileKind,
};
use composefs_run::error::RunError;
use composefs_run::etc::{
    generate_etc_config, host_resolv_conf, is_network_manager_stub, is_systemd_stub, resolv_conf,
};
use composefs_run::image::{ImageConfig, Label};
use composefs_run::invocation::{invocation, Invocation};
use composefs_run::mount::{replace_mount, system_mounts, volume_mounts, Mount};
use composefs_run::options::{
    DeviceSpec, NetworkMode, SeccompPolicy, SecurityOpt, SystemdMode, UserSpec, VolumeSpec,
};
use composefs_run::process::{
    catatonit_paths, effective_command, effective_cwd, effective_env, effective_hostname,
    effective_user, find_catatonit, is_systemd_command, put_under_init, wants_systemd,
};
use composefs_run::run::plan_of;
use composefs_run::runtime::{
    build_runtime_spec, effective_tty, publish_is_unused, Bundle, Launch, NamespaceKind,
};
use composefs_run::security::{security_settings, SeccompSource};
use composefs_run::settings::{resolve_settings, Settings};
use composefs_run::text::lines_of;

fn list(items: &[&str]) -> Vec<String> {
    items.iter().map(|s| s.to_string()).collect()
}

fn cli() -> Cli {
    Cli {
        repo: None,
        read_only: false,
        read_only_tmpfs: true,
        overlay_dir: None,
        volumes: vec![],
        tty: false,
        interactive: false,
        no_init: false,
        device: vec![],
        privileged: false,
        cap_add: vec![],
        cap_drop: vec![],
        envs: vec![],
        unsetenv: vec![],
        user: None,
        workdir_override: None,
        expose: vec![],
        publish: vec![],
        hostname: None,
        add_host: vec![],
        dns: vec![],
        dns_search: vec![],
        dns_option: vec![],
        security_opt: vec![],
        seccomp_policy: SeccompPolicy::Default,
        network: None,
        systemd: SystemdMode::Auto,
        rootfs: None,
        image: Some("cs10".into()),
        cmd: list(&["bash"]),
    }
}

fn settings(cli: &Cli) -> Result<Settings, RunError> {
    resolve_settings(
        cli,
        &ImageConfig::empty(),
        "composefs-1234567",
        &vec![false, false, false, false, false, true],
        "/usr/share/containers/seccomp.json",
    )
}

fn launch() -> Launch {
    Launch {
        container_id: "composefs-1234567".into(),
        container_dir: "/var/tmp/cfsrun-composefs-1234567".into(),
        bundle_dir: "/var/tmp/cfsrun-composefs-1234567/bundle".into(),
        tty: false,
        rootless: false,
        network: NetworkMode::Bridge,
        netns_path: Some("/b/netns".into()),
        container_ip: None,
        pasta_pid: None,
        process_label: Some("proc_t".into()),
        mount_label: Some("file_t".into()),
        device_info: vec![],
        host_resolv: "nameserver 10.0.0.1\n".into(),
    }
}

fn bundle(cli: &Cli, launch: Launch) -> Bundle {
    build_runtime_spec(cli, settings(cli).unwrap(), launch).unwrap()
}

fn places(mounts: &[Mount]) -> Vec<&str> {
    mounts.iter().map(|m| m.destination.as_str()).collect()
}

fn options(m: &Mount) -> Vec<&str> {
    m.options.as_ref().unwrap().iter().map(|s| s.as_str()).collect()
}

fn null() -> DeviceSpec {
    DeviceSpec { src: "/dev/null".into(), dst: "/dev/nothing".into(), perms: "rw".into() }
}

// ---------------------------------------------------------------------------------------
// The process

#[test]
fn systemd_commands() {
    assert!(is_systemd_command(&["/usr/sbin/init".into()]));
    assert!(is_systemd_command(&["/sbin/init".into()]));
    assert!(is_systemd_command(&["systemd".into()]));
    assert!(is_systemd_command(&["/usr/lib/systemd/systemd".into()]));
    assert!(!is_systemd_command(&["/usr/bin/bash".into()]));
    assert!(!is_systemd_command(&["echo".into()]));
    assert!(!is_systemd_command(&[]));
}

#[test]
fn the_command_line_replaces_the_command_of_the_image() {
    let config = ImageConfig {
        entrypoint: Some(list(&["/entry"])),
        cmd: Some(list(&["a", "b"])),
        ..ImageConfig::empty()
    };
    assert_eq!(effective_command(&list(&["x"]), &config).unwrap(), vec!["x"]);
    assert_eq!(effective_command(&vec![], &config).unwrap(), vec!["/entry", "a", "b"]);
    let e = effective_command(&vec![], &ImageConfig::empty()).unwrap_err();
    assert!(matches!(e, RunError::NoCommand));
    assert_eq!(
        e.message(),
        "No entrypoint or cmd in image config and no command specified"
    );
}

#[test]
fn systemd_is_noticed_or_told() {
    let init = list(&["/sbin/init"]);
    let bash = list(&["bash"]);
    assert!(wants_systemd(SystemdMode::Auto, &init));
    assert!(!wants_systemd(SystemdMode::Auto, &bash));
    assert!(wants_systemd(SystemdMode::Always, &bash));
    assert!(!wants_systemd(SystemdMode::Off, &init));
}

#[test]
fn the_first_init_process_that_is_there_is_used() {
    assert_eq!(catatonit_paths().len(), 6);
    assert_eq!(
        find_catatonit(&vec![false, true, true, false, false, false]).unwrap(),
        "/usr/libexec/podman/catatonit"
    );
    let e = find_catatonit(&vec![false; 6]).unwrap_err();
    assert!(matches!(e, RunError::NoInit));
    assert_eq!(
        e.message(),
        "catatonit is required (use --no-init to disable): catatonit not found"
    );
    assert_eq!(put_under_init(&list(&["bash"])), vec!["/dev/init", "--", "bash"]);
}

#[test]
fn the_environment_starts_from_the_image() {
    assert_eq!(
        effective_env(&None, false, &vec![], &vec![]),
        vec![
            "PATH=/usr/local/sbin:/usr/local/bin:/usr/sbin:/usr/bin:/sbin:/bin",
            "container=oci",
        ]
    );
    assert_eq!(
        effective_env(&Some(list(&["A=1"])), true, &vec![], &vec![]),
        vec!["A=1", "container=oci", "TERM=xterm"]
    );
}

#[test]
fn the_last_setting_of_a_variable_counts() {
    assert_eq!(
        effective_env(
            &Some(list(&["A=1", "A=2", "B=1"])),
            true,
            &list(&["TERM", "B=1"]),
            &list(&["A=3", "C", "A=4"]),
        ),
        vec!["B=1", "container=oci", "C", "A=4"]
    );
}

#[test]
fn a_variable_can_be_unset_and_set_again() {
    assert_eq!(
        effective_env(&Some(list(&["A=1", "B=1"])), false, &list(&["A", "B"]), &list(&["A=2"])),
        vec!["container=oci", "A=2"]
    );
}

#[test]
fn the_directory_is_given_or_the_images() {
    assert_eq!(effective_cwd(&Some("/w".into()), &Some("/i".into())), "/w");
    assert_eq!(effective_cwd(&None, &Some("/i".into())), "/i");
    assert_eq!(effective_cwd(&None, &None), "/");
}

#[test]
fn the_user_is_given_or_the_images() {
    let user = |given: Option<UserSpec>, image: Option<&str>| {
        let u = effective_user(&given, &image.map(|s| s.to_string()));
        (u.uid, u.gid)
    };
    assert_eq!(user(Some(UserSpec { uid: 5, gid: 6 }), Some("7:8")), (5, 6));
    assert_eq!(user(None, Some("7:8")), (7, 8));
    assert_eq!(user(None, Some("nobody")), (0, 0));
    assert_eq!(user(None, None), (0, 0));
}

#[test]
fn the_host_name_is_given_or_cut_from_the_id() {
    assert_eq!(effective_hostname(&Some("h".into()), "composefs-1234567"), "h");
    assert_eq!(effective_hostname(&None, "composefs-1234567"), "composefs-12");
    assert_eq!(effective_hostname(&None, "c"), "c");
}

// ---------------------------------------------------------------------------------------
// Security

fn opts(items: &[&str]) -> Vec<SecurityOpt> {
    items.iter().map(|s| s.parse().unwrap()).collect()
}

#[test]
fn security_without_options() {
    let s = security_settings(SeccompPolicy::Default, None, "/p.json", false, &vec![]).unwrap();
    assert!(matches!(s.seccomp, Some(SeccompSource::File(p)) if p == "/p.json"));
    assert!(s.no_new_privileges);
    assert!(!s.selinux_disabled && !s.selinux_nested);
    assert!(s.label_opts.is_empty());
}

#[test]
fn the_image_can_bring_the_profile() {
    let s = security_settings(SeccompPolicy::Image, Some("{}".into()), "/p.json", false, &vec![])
        .unwrap();
    assert!(matches!(s.seccomp, Some(SeccompSource::Inline(j)) if j == "{}"));
    let e = security_settings(SeccompPolicy::Image, None, "/p.json", true, &vec![]).unwrap_err();
    assert!(matches!(e, RunError::NoSeccompProfile));
    assert_eq!(
        e.message(),
        "No seccomp policy defined by image (missing io.containers.seccomp.profile label)"
    );
}

#[test]
fn the_last_profile_and_the_last_privilege_option_count() {
    let s = security_settings(
        SeccompPolicy::Default,
        None,
        "/p.json",
        false,
        &opts(&[
            "seccomp=unconfined",
            "no-new-privileges=false",
            "seccomp=/q.json",
            "seccomp",
            "no-new-privileges",
            "label",
        ]),
    )
    .unwrap();
    assert!(matches!(s.seccomp, Some(SeccompSource::File(p)) if p == "/q.json"));
    assert!(s.no_new_privileges);
    let s = security_settings(
        SeccompPolicy::Default,
        None,
        "/p.json",
        false,
        &opts(&["seccomp=unconfined", "no-new-privileges:no"]),
    )
    .unwrap();
    assert!(s.seccomp.is_none());
    assert!(!s.no_new_privileges);
}

#[test]
fn label_options_are_collected() {
    let s = security_settings(
        SeccompPolicy::Default,
        None,
        "/p.json",
        false,
        &opts(&["label=type:foo_t", "label:nested", "label=level:s0", "label=disable"]),
    )
    .unwrap();
    assert!(s.selinux_disabled && s.selinux_nested);
    assert_eq!(s.label_opts, vec!["type:foo_t", "level:s0"]);
}

#[test]
fn a_privileged_container_is_unconfined() {
    let s = security_settings(
        SeccompPolicy::Default,
        None,
        "/p.json",
        true,
        &opts(&["seccomp=/q.json"]),
    )
    .unwrap();
    assert!(s.seccomp.is_none());
    assert!(s.selinux_disabled);
    assert!(!s.no_new_privileges);
}

#[test]
fn an_unknown_security_option_is_refused() {
    let e = security_settings(
        SeccompPolicy::Default,
        None,
        "/p.json",
        false,
        &opts(&["apparmor=x", "other"]),
    )
    .unwrap_err();
    assert!(matches!(&e, RunError::UnsupportedSecurityOpt(s) if s == "apparmor"));
    assert_eq!(e.message(), "Unsupported --security-opt: apparmor");
}

// ---------------------------------------------------------------------------------------
// Files under /etc

#[test]
fn the_configuration_of_the_resolver_is_taken_over() {
    let base = "# c\nnameserver 10.0.0.1\r\nsearch a b\noptions ndots:1\n";
    assert_eq!(resolv_conf(base, &vec![], &vec![], &vec![]), base);
    assert_eq!(
        resolv_conf(base, &list(&["1.1.1.1", "8.8.8.8"]), &vec![], &vec![]),
        "nameserver 1.1.1.1\nnameserver 8.8.8.8\nsearch a b\noptions ndots:1\n"
    );
    assert_eq!(
        resolv_conf(base, &vec![], &list(&["x", "y"]), &vec![]),
        "nameserver 10.0.0.1\nsearch x y\noptions ndots:1\n"
    );
    assert_eq!(
        resolv_conf(base, &vec![], &vec![], &list(&["rotate"])),
        "nameserver 10.0.0.1\nsearch a b\noptions rotate\n"
    );
}

#[test]
fn stub_resolvers_are_looked_through() {
    assert!(is_systemd_stub("# x\n nameserver 127.0.0.53 \n"));
    assert!(!is_systemd_stub("nameserver 127.0.0.53 trust\n"));
    assert!(is_network_manager_stub("nameserver 127.0.0.1"));
    let systemd = "nameserver 127.0.0.53\n".to_string();
    let nm = "nameserver 127.0.0.1\n".to_string();
    let both = format!("{systemd}{nm}");
    assert_eq!(host_resolv_conf(systemd.clone(), Some("s".into()), Some("n".into())), "s");
    assert_eq!(host_resolv_conf(systemd.clone(), None, Some("n".into())), systemd);
    assert_eq!(host_resolv_conf(nm.clone(), Some("s".into()), Some("n".into())), "n");
    assert_eq!(host_resolv_conf(both, None, Some("n".into())), "n");
    assert_eq!(host_resolv_conf("x\n".into(), Some("s".into()), Some("n".into())), "x\n");
}

#[test]
fn the_files_under_etc() {
    let etc = generate_etc_config(
        "/b",
        "h",
        &vec!["db:10.0.0.9".parse().unwrap()],
        &vec![],
        &vec![],
        &vec![],
        "nameserver 10.0.0.1\n",
    );
    assert_eq!((etc.hostname.path.as_str(), etc.hostname.content.as_str()), ("/b/hostname", "h\n"));
    assert_eq!(etc.hosts.path, "/b/hosts");
    assert_eq!(
        etc.hosts.content,
        "10.0.0.9\tdb\n127.0.0.1\tlocalhost\n::1\t\tlocalhost\n127.0.0.1\th\n"
    );
    assert_eq!(
        lines_of(&etc.hosts.content),
        vec!["10.0.0.9\tdb", "127.0.0.1\tlocalhost", "::1\t\tlocalhost", "127.0.0.1\th"]
    );
    assert_eq!(etc.resolv.path, "/b/resolv.conf");
    assert_eq!(etc.resolv.content, "nameserver 10.0.0.1\n");
    assert_eq!(places(&etc.mounts), vec!["/etc/hostname", "/etc/hosts", "/etc/resolv.conf"]);
    for m in &etc.mounts {
        assert_eq!(m.typ.as_deref(), Some("bind"));
        assert_eq!(options(m), vec!["bind", "rprivate"]);
    }
    assert_eq!(etc.mounts[2].source.as_deref(), Some("/b/resolv.conf"));
}

// ---------------------------------------------------------------------------------------
// Mounts

#[test]
fn every_container_has_the_system_mounts() {
    let mounts = system_mounts(false, false);
    assert_eq!(
        places(&mounts),
        vec!["/proc", "/dev", "/dev/pts", "/dev/shm", "/dev/mqueue", "/sys", "/sys/fs/cgroup"]
    );
    assert_eq!(mounts[0].options, None);
    assert_eq!(
        options(&mounts[2]),
        vec!["nosuid", "noexec", "newinstance", "ptmxmode=0666", "mode=0620", "gid=5"]
    );
}

#[test]
fn a_read_only_container_can_write_to_some_places() {
    let mounts = system_mounts(true, false);
    assert_eq!(
        places(&mounts),
        vec![
            "/proc", "/dev", "/dev/pts", "/dev/mqueue", "/sys", "/sys/fs/cgroup", "/dev/shm", "/run",
            "/tmp", "/var/tmp",
        ]
    );
    assert_eq!(options(&mounts[6]), vec!["nosuid", "nodev", "mode=1777"]);
}

#[test]
fn systemd_needs_more_places() {
    let mounts = system_mounts(true, true);
    assert_eq!(
        places(&mounts),
        vec![
            "/proc", "/dev", "/dev/pts", "/dev/mqueue", "/sys", "/dev/shm", "/run", "/tmp",
            "/var/tmp", "/run/lock", "/var/log/journal", "/sys/fs/cgroup",
        ]
    );
    assert_eq!(options(&mounts[5]), vec!["rw", "rprivate", "nosuid", "nodev", "tmpcopyup"]);
    assert_eq!(options(&mounts[11]), vec!["private", "rw"]);
    assert_eq!(places(&system_mounts(false, true))[6..], [
        "/run", "/run/lock", "/tmp", "/var/log/journal", "/sys/fs/cgroup",
    ]);
}

#[test]
fn a_mount_takes_the_place_of_those_before_it() {
    let m = |place: &str, source: &str| Mount::new(place, "none", source, vec![]);
    let mounts = vec![m("/a", "1"), m("/b", "2"), m("/a/", "3")];
    let r = replace_mount(&mounts, m("/a", "4"));
    assert_eq!(places(&r), vec!["/b", "/a"]);
    assert_eq!(r[1].source.as_deref(), Some("4"));
}

#[test]
fn volumes_are_bound() {
    let volumes: Vec<VolumeSpec> =
        vec!["/tmp:/mnt".parse().unwrap(), "/srv:/data:ro".parse().unwrap()];
    let mounts = volume_mounts(&volumes);
    assert_eq!(places(&mounts), vec!["/mnt", "/data"]);
    assert_eq!(options(&mounts[0]), vec!["rbind"]);
    assert_eq!(options(&mounts[1]), vec!["rbind", "ro"]);
    assert_eq!(mounts[1].source.as_deref(), Some("/srv"));
    assert_eq!(mounts[1].typ.as_deref(), Some("none"));
}

// ---------------------------------------------------------------------------------------
// Devices

#[test]
fn a_device_is_added_with_its_rule() {
    let mut d = Devices { nodes: vec![], rules: vec![] };
    let info = DeviceInfo { kind: FileKind::CharDevice, rdev: 0x103 };
    add_device_to_spec(&mut d, &null(), info).unwrap();
    add_device_to_spec(&mut d, &null(), DeviceInfo { kind: FileKind::BlockDevice, rdev: 0x12345 })
        .unwrap();
    assert_eq!(d.nodes[0].path, "/dev/nothing");
    assert_eq!(d.nodes[0].kind, DeviceKind::Char);
    assert_eq!((d.nodes[0].major, d.nodes[0].minor), (1, 3));
    assert_eq!((d.nodes[1].major, d.nodes[1].minor), (0x123, 0x45));
    assert_eq!((d.rules[1].major, d.rules[1].minor), (Some(0x123), Some(0x45)));
    assert_eq!(d.rules[1].kind, DeviceKind::Block);
    assert!(d.rules[1].allow);
    assert_eq!(d.rules[1].access, "rw");
    let e = add_device_to_spec(&mut d, &null(), DeviceInfo { kind: FileKind::Other, rdev: 0 })
        .unwrap_err();
    assert!(matches!(&e, RunError::NotADevice(s) if s == "/dev/null"));
    assert_eq!(e.message(), "/dev/null is not a device node");
    assert_eq!((d.nodes.len(), d.rules.len()), (2, 2));
}

#[test]
fn a_device_keeps_the_numbers_of_the_host() {
    let numbers = [0u64, 0x103, 0x100800, 0xabcdef0123456789, u64::MAX];
    let devices: Vec<DeviceSpec> = numbers.iter().map(|_| null()).collect();
    let info: Vec<DeviceInfo> =
        numbers.iter().map(|n| DeviceInfo { kind: FileKind::BlockDevice, rdev: *n }).collect();
    let d = collect_devices(&devices, &info).unwrap();
    assert_eq!((d.nodes[2].major, d.nodes[2].minor), (8, 256));
    for i in 0..numbers.len() {
        let (major, minor) = (libc::major(numbers[i]), libc::minor(numbers[i]));
        assert_eq!((d.nodes[i].major, d.nodes[i].minor), (major as i64, minor as i64));
        assert_eq!((d.rules[i].major, d.rules[i].minor), (Some(major as i64), Some(minor as i64)));
        assert_eq!(libc::makedev(major, minor), numbers[i]);
    }
}

#[test]
fn a_privileged_container_has_access_to_all_devices() {
    for rootless in [false, true] {
        let b = bundle(&Cli { privileged: true, ..cli() }, Launch { rootless, ..launch() });
        assert!(b.config.linux.devices.nodes.is_empty());
        let rules = b.config.linux.devices.rules;
        assert_eq!(rules.len(), 2);
        assert_eq!((rules[0].kind, rules[1].kind), (DeviceKind::Char, DeviceKind::Block));
        for rule in &rules {
            assert!(rule.allow);
            assert_eq!((rule.major, rule.minor), (None, None));
            assert_eq!(rule.access, "rwm");
        }
    }
    let b = bundle(
        &Cli { privileged: true, device: vec![null()], ..cli() },
        Launch {
            device_info: vec![DeviceInfo { kind: FileKind::CharDevice, rdev: 0x103 }],
            ..launch()
        },
    );
    assert_eq!(b.config.linux.devices.rules.len(), 3);
    assert!(bundle(&cli(), launch()).config.linux.devices.rules.is_empty());
}

// ---------------------------------------------------------------------------------------
// All together

#[test]
fn settings_of_an_ordinary_container() {
    let s = settings(&cli()).unwrap();
    assert_eq!(s.args, vec!["/dev/init", "--", "bash"]);
    assert_eq!(s.init.as_deref(), Some("/usr/bin/catatonit"));
    assert_eq!(s.hostname, "composefs-12");
    assert_eq!(s.cwd, "/");
    assert!(!s.systemd);
    assert_eq!(s.capabilities.members().len(), 11);
}

#[test]
fn settings_of_a_container_with_systemd() {
    let s = settings(&Cli { cmd: list(&["/sbin/init"]), ..cli() }).unwrap();
    assert_eq!(s.args, vec!["/sbin/init"]);
    assert_eq!(s.init, None);
    assert!(s.systemd);
    assert_eq!(s.env.last().unwrap(), "container_uuid=composefs-1234567");
}

#[test]
fn settings_without_an_init_process() {
    let s = settings(&Cli { no_init: true, ..cli() }).unwrap();
    assert_eq!(s.args, vec!["bash"]);
    let r = resolve_settings(
        &cli(),
        &ImageConfig::empty(),
        "composefs-1",
        &vec![false; 6],
        "/p.json",
    );
    assert!(matches!(r, Err(RunError::NoInit)));
}

#[test]
fn the_image_brings_its_profile_in_a_label() {
    let config = ImageConfig {
        labels: vec![
            Label { key: "a".into(), value: "b".into() },
            Label { key: "io.containers.seccomp.profile".into(), value: "{}".into() },
        ],
        ..ImageConfig::empty()
    };
    let c = Cli { seccomp_policy: SeccompPolicy::Image, no_init: true, ..cli() };
    let s = resolve_settings(&c, &config, "c", &vec![false; 6], "/p.json").unwrap();
    assert!(matches!(s.security.seccomp, Some(SeccompSource::Inline(j)) if j == "{}"));
    assert!(matches!(settings(&c), Err(RunError::NoSeccompProfile)));
}

#[test]
fn the_runtime_is_told_everything() {
    let b = bundle(&cli(), launch());
    let c = b.config;
    assert_eq!(c.root_path, "rootfs");
    assert!(!c.root_readonly);
    assert_eq!(c.hostname, "composefs-12");
    assert_eq!(c.process.args, vec!["/dev/init", "--", "bash"]);
    assert_eq!(c.process.selinux_label.as_deref(), Some("proc_t"));
    assert_eq!(c.linux.mount_label.as_deref(), Some("file_t"));
    assert!(c.process.no_new_privileges);
    assert!(c.process.capabilities.bounding.contains(Capability::Chown));
    assert_eq!(c.linux.cgroups_path.as_deref(), Some("cfsrun/composefs-1234567"));
    assert_eq!(
        c.linux.masked_paths,
        vec![
            "/proc/acpi", "/proc/asound", "/proc/kcore", "/proc/keys", "/proc/latency_stats",
            "/proc/timer_list", "/proc/timer_stats", "/proc/sched_debug", "/sys/firmware",
            "/proc/scsi",
        ]
    );
    assert_eq!(
        c.linux.readonly_paths,
        vec!["/proc/bus", "/proc/fs", "/proc/irq", "/proc/sys", "/proc/sysrq-trigger"]
    );
    assert_eq!(
        places(&c.mounts)[7..],
        ["/etc/hostname", "/etc/hosts", "/etc/resolv.conf", "/dev/init"]
    );
    assert_eq!(options(&c.mounts[10]), vec!["bind", "ro", "nosuid", "nodev"]);
    assert_eq!(c.mounts[10].source.as_deref(), Some("/usr/bin/catatonit"));
    assert_eq!(c.poststop_timeout, 10);
    assert_eq!(b.etc.resolv.content, "nameserver 10.0.0.1\n");
}

#[test]
fn a_container_has_namespaces() {
    let b = bundle(&cli(), launch());
    let kinds: Vec<NamespaceKind> = b.config.linux.namespaces.iter().map(|n| n.kind).collect();
    assert_eq!(
        kinds,
        vec![
            NamespaceKind::Pid,
            NamespaceKind::Network,
            NamespaceKind::Ipc,
            NamespaceKind::Uts,
            NamespaceKind::Mount,
            NamespaceKind::Cgroup,
        ]
    );
    for n in &b.config.linux.namespaces {
        let expected =
            if n.kind == NamespaceKind::Network { Some("/b/netns".to_string()) } else { None };
        assert_eq!(n.path, expected);
    }
}

#[test]
fn a_container_on_the_host_network_has_no_network_namespace() {
    let b = bundle(
        &cli(),
        Launch { network: NetworkMode::Host, netns_path: None, ..launch() },
    );
    assert_eq!(b.config.linux.namespaces.len(), 5);
    assert!(b.config.linux.namespaces.iter().all(|n| n.kind != NamespaceKind::Network));
}

#[test]
fn a_privileged_container_sees_and_writes_everything() {
    let b = bundle(&Cli { privileged: true, ..cli() }, launch());
    assert!(b.config.linux.masked_paths.is_empty());
    assert!(b.config.linux.readonly_paths.is_empty());
    assert!(b.config.linux.seccomp.is_none());
    assert_eq!(b.config.process.selinux_label, None);
    assert_eq!(b.config.linux.mount_label, None);
    let caps = b.config.process.capabilities;
    for set in [caps.bounding, caps.effective, caps.inheritable, caps.permitted, caps.ambient] {
        assert_eq!(set.members().len(), 41);
    }
}

#[test]
fn a_container_can_see_the_selinux_file_system() {
    let b = bundle(&Cli { security_opt: opts(&["label=nested"]), ..cli() }, launch());
    assert_eq!(b.config.mounts[7].destination, "/sys/fs/selinux");
    assert_eq!(b.config.mounts[7].typ.as_deref(), Some("bind"));
    assert_eq!(options(&b.config.mounts[7]), vec!["rbind"]);
    assert_eq!(b.config.linux.masked_paths.len(), 10);
}

#[test]
fn devices_of_root_are_nodes_and_mounts() {
    let c = Cli { device: vec![null()], volumes: vec!["/tmp:/mnt".parse().unwrap()], ..cli() };
    let b = bundle(
        &c,
        Launch {
            device_info: vec![DeviceInfo { kind: FileKind::CharDevice, rdev: 0x103 }],
            ..launch()
        },
    );
    assert_eq!(b.config.linux.devices.nodes.len(), 1);
    assert_eq!(places(&b.config.mounts)[7..9], ["/mnt", "/dev/nothing"]);
    assert_eq!(options(&b.config.mounts[8]), vec!["rbind"]);
    let r = build_runtime_spec(
        &c,
        settings(&c).unwrap(),
        Launch { device_info: vec![DeviceInfo { kind: FileKind::Other, rdev: 0 }], ..launch() },
    );
    assert!(matches!(r, Err(RunError::NotADevice(s)) if s == "/dev/null"));
}

#[test]
fn devices_of_an_ordinary_user_are_only_mounted() {
    let read_only = DeviceSpec { perms: "r".into(), ..null() };
    let c = Cli { device: vec![null(), read_only], ..cli() };
    let b = bundle(&c, Launch { rootless: true, ..launch() });
    assert!(b.config.linux.devices.nodes.is_empty());
    assert!(b.config.linux.devices.rules.is_empty());
    assert_eq!(options(&b.config.mounts[7]), vec!["rbind", "nosuid", "noexec", "rw"]);
    assert_eq!(options(&b.config.mounts[8]), vec!["rbind", "nosuid", "noexec", "ro"]);
    assert_eq!(b.config.linux.cgroups_path, None);
}

#[test]
fn the_cleanup_is_told_what_to_clean_up() {
    let dir = "/var/tmp/cfsrun-composefs-1234567";
    let b = bundle(&cli(), launch());
    assert_eq!(
        b.config.poststop_args,
        vec![
            "cfsrun",
            "--internal-cleanup",
            "--container-dir",
            dir,
            "--container-id",
            "composefs-1234567",
        ]
    );
    assert_eq!(invocation(&Some(b.config.poststop_args[1].clone())), Invocation::Cleanup);
    let b = bundle(
        &cli(),
        Launch { container_ip: Some("10.89.0.2".into()), pasta_pid: Some(4711), ..launch() },
    );
    assert_eq!(
        b.config.poststop_args[6..],
        ["--container-ip", "10.89.0.2", "--pasta-pid", "4711"]
    );
}

#[test]
fn pasta_is_asked_for_names() {
    let b = bundle(&cli(), Launch { network: NetworkMode::Pasta, rootless: true, ..launch() });
    assert_eq!(b.etc.resolv.content, "nameserver 169.254.1.1\n");
}

#[test]
fn a_read_only_container_is_told_so() {
    let b = bundle(&Cli { read_only: true, read_only_tmpfs: false, ..cli() }, launch());
    assert!(b.config.root_readonly);
    assert!(!places(&b.config.mounts).contains(&"/var/tmp"));
    let b = bundle(&Cli { read_only: true, ..cli() }, launch());
    assert!(places(&b.config.mounts).contains(&"/var/tmp"));
    let b = bundle(&cli(), launch());
    assert!(!places(&b.config.mounts).contains(&"/var/tmp"));
}

#[test]
fn a_plan_follows_the_command_line() {
    let c = Cli {
        rootfs: Some("/srv/root".into()),
        read_only: true,
        network: Some(NetworkMode::Host),
        publish: vec!["53:53/udp".parse().unwrap()],
        ..cli()
    };
    let p = plan_of(&c, true, "composefs-1".into(), "/repo".into(), Some("ab12".into()));
    assert!(p.rootless);
    assert_eq!(p.container_id, "composefs-1");
    assert_eq!(p.container_dir, "/var/tmp/cfsrun-composefs-1");
    assert_eq!(p.network, Some(NetworkMode::Host));
    assert_eq!(p.publish[0].protocol, "udp");
    assert_eq!(p.source.rootfs.as_deref(), Some("/srv/root"));
    assert_eq!(p.source.repo_path, "/repo");
    assert_eq!(p.source.image.as_deref(), Some("ab12"));
    assert_eq!(p.source.overlay_dir, p.container_dir);
    assert!(p.source.read_only);
    let c = Cli { overlay_dir: Some("/o".into()), ..cli() };
    let p = plan_of(&c, false, "composefs-1".into(), "/repo".into(), None);
    assert_eq!(p.source.overlay_dir, "/o");
}

#[test]
fn published_ports_on_the_host_network_are_noted() {
    let c = Cli { publish: vec!["80:80".parse().unwrap()], ..cli() };
    assert!(publish_is_unused(&c, &None));
    assert!(!publish_is_unused(&c, &Some("/b/netns".into())));
    assert!(!publish_is_unused(&cli(), &None));
}

#[test]
fn a_terminal_needs_a_terminal() {
    assert!(effective_tty(true, true));
    assert!(!effective_tty(true, false));
    assert!(!effective_tty(false, true));
}
