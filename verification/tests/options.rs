use composefs_run::options::{
    DeviceSpec, HostEntry, NetworkMode, OptionError, PortSpec, SeccompPolicy, SecurityOpt, SystemdMode,
    UserSpec, VolumeSpec,
};

/// A device option whose host path is its own canonical form where it exists.
fn device(s: &str) -> Result<DeviceSpec, OptionError> {
    let src = DeviceSpec::source(s);
    let known = src == "/dev/null";
    DeviceSpec::from_str(s, if known { Some(src) } else { None })
}

#[test]
fn parse_device_spec_basic() {
    let d = device("/dev/null").unwrap();
    assert_eq!(d.src, "/dev/null");
    assert_eq!(d.dst, "/dev/null");
    assert_eq!(d.perms, "rwm");
}

#[test]
fn parse_device_spec_with_dest() {
    let d = device("/dev/null:/dev/zero").unwrap();
    assert_eq!(d.dst, "/dev/zero");
    assert_eq!(d.perms, "rwm");
}

#[test]
fn parse_device_spec_with_perms() {
    let d = device("/dev/null:/dev/zero:r").unwrap();
    assert_eq!(d.perms, "r");
}

#[test]
fn parse_device_spec_perms_only() {
    let d = device("/dev/null:rw").unwrap();
    assert_eq!(d.dst, "/dev/null");
    assert_eq!(d.perms, "rw");
}

#[test]
fn parse_device_spec_bad_path() {
    assert!(device("/dev/nonexistent_device_xyz").is_err());
}

#[test]
fn parse_volume_spec_basic() {
    let v: VolumeSpec = "/tmp:/mnt".parse().unwrap();
    assert_eq!(v.host, "/tmp");
    assert_eq!(v.container, "/mnt");
    assert!(!v.read_only);
}

#[test]
fn parse_volume_spec_ro() {
    let v: VolumeSpec = "/tmp:/mnt:ro".parse().unwrap();
    assert!(v.read_only);
}

#[test]
fn parse_volume_spec_relative_container_fails() {
    assert!("relative:relative".parse::<VolumeSpec>().is_err());
}

#[test]
fn parse_volume_spec_missing_container_fails() {
    assert!("/tmp".parse::<VolumeSpec>().is_err());
}

#[test]
fn parse_host_entry() {
    let h: HostEntry = "mydb:10.0.0.5".parse().unwrap();
    assert_eq!(h.host, "mydb");
    assert_eq!(h.ip, "10.0.0.5");
}

#[test]
fn parse_host_entry_no_colon_fails() {
    assert!("nocolon".parse::<HostEntry>().is_err());
}

#[test]
fn parse_port_spec_tcp() {
    let p: PortSpec = "8080:80".parse().unwrap();
    assert_eq!(p.host_port, 8080);
    assert_eq!(p.container_port, 80);
    assert_eq!(p.protocol, "tcp");
}

#[test]
fn parse_port_spec_udp() {
    let p: PortSpec = "53:53/udp".parse().unwrap();
    assert_eq!(p.protocol, "udp");
}

#[test]
fn parse_port_spec_bad_format() {
    assert!("not-a-port".parse::<PortSpec>().is_err());
}

#[test]
fn parse_security_opt_bare() {
    let s: SecurityOpt = "no-new-privileges".parse().unwrap();
    assert_eq!(s.key, "no-new-privileges");
    assert!(s.value.is_none());
    assert!(s.is_true());
    assert!(!s.is_false());
}

#[test]
fn parse_security_opt_equals() {
    let s: SecurityOpt = "seccomp=unconfined".parse().unwrap();
    assert_eq!(s.key, "seccomp");
    assert_eq!(s.value.as_deref(), Some("unconfined"));
}

#[test]
fn parse_security_opt_colon() {
    let s: SecurityOpt = "label:disable".parse().unwrap();
    assert_eq!(s.key, "label");
    assert_eq!(s.value.as_deref(), Some("disable"));
}

#[test]
fn security_opt_bool_values() {
    assert!("k=true".parse::<SecurityOpt>().unwrap().is_true());
    assert!("k=1".parse::<SecurityOpt>().unwrap().is_true());
    assert!("k=yes".parse::<SecurityOpt>().unwrap().is_true());
    assert!("k=false".parse::<SecurityOpt>().unwrap().is_false());
    assert!("k=0".parse::<SecurityOpt>().unwrap().is_false());
    assert!("k=no".parse::<SecurityOpt>().unwrap().is_false());
    assert!(!"k=false".parse::<SecurityOpt>().unwrap().is_true());
}

#[test]
fn parse_network_modes() {
    assert_eq!("host".parse::<NetworkMode>().unwrap(), NetworkMode::Host);
    assert_eq!("pasta".parse::<NetworkMode>().unwrap(), NetworkMode::Pasta);
    assert_eq!(
        "bridge".parse::<NetworkMode>().unwrap(),
        NetworkMode::Bridge
    );
    assert_eq!(
        "private".parse::<NetworkMode>().unwrap(),
        NetworkMode::Private
    );
    assert!("bogus".parse::<NetworkMode>().is_err());
}

#[test]
fn parse_user_spec() {
    let u: UserSpec = "1000".parse().unwrap();
    assert_eq!((u.uid, u.gid), (1000, 1000));

    let u: UserSpec = "1000:2000".parse().unwrap();
    assert_eq!((u.uid, u.gid), (1000, 2000));

    let u: UserSpec = "".parse().unwrap();
    assert_eq!((u.uid, u.gid), (0, 0));

    assert!("abc".parse::<UserSpec>().is_err());
    assert!("1000:abc".parse::<UserSpec>().is_err());
}

#[test]
fn refused_options_say_why() {
    let volume = |s: &str| s.parse::<VolumeSpec>().unwrap_err().message();
    assert_eq!(volume("/tmp"), "Volume must be HOST:CONTAINER[:ro], got: /tmp");
    assert_eq!(volume("/tmp:mnt"), "Container path must be absolute, got: mnt");
    assert_eq!(
        device("/dev/nonexistent_device_xyz:r").unwrap_err().message(),
        "Device path '/dev/nonexistent_device_xyz' not found"
    );
    assert_eq!(
        "db".parse::<HostEntry>().unwrap_err().message(),
        "--add-host must be HOST:IP, got 'db'"
    );
    let port = |s: &str| s.parse::<PortSpec>().unwrap_err().message();
    assert_eq!(port("80"), "Port must be HOST_PORT:CONTAINER_PORT[/PROTO], got '80'");
    assert_eq!(port("x:80"), "Parsing host port");
    assert_eq!(port("80:65536"), "Parsing container port");
    assert_eq!(
        "none".parse::<NetworkMode>().unwrap_err().message(),
        "Unknown network mode 'none', expected host|pasta|bridge|private"
    );
    assert_eq!(
        "none".parse::<SeccompPolicy>().unwrap_err().message(),
        "Unknown seccomp policy 'none', expected default|image"
    );
    assert_eq!(
        "auto".parse::<SystemdMode>().unwrap_err().message(),
        "Unknown systemd mode 'auto', expected true|false|always"
    );
    let user = |s: &str| s.parse::<UserSpec>().unwrap_err().message();
    assert_eq!(user("root"), "Non-numeric user 'root' — only numeric UIDs are supported");
    assert_eq!(user("0:root"), "Non-numeric group 'root' — only numeric GIDs are supported");
}

#[test]
fn policies_and_modes_are_read() {
    assert_eq!("default".parse::<SeccompPolicy>().unwrap(), SeccompPolicy::Default);
    assert_eq!("image".parse::<SeccompPolicy>().unwrap(), SeccompPolicy::Image);
    assert_eq!("true".parse::<SystemdMode>().unwrap(), SystemdMode::Auto);
    assert_eq!("always".parse::<SystemdMode>().unwrap(), SystemdMode::Always);
    assert_eq!("false".parse::<SystemdMode>().unwrap(), SystemdMode::Off);
}

#[test]
fn what_is_written_is_read_back() {
    let p: PortSpec = "8080:80/udp".parse().unwrap();
    assert_eq!(p.to_text(), "8080:80");
    let q: PortSpec = p.to_text().parse().unwrap();
    assert_eq!((q.host_port, q.container_port, q.protocol.as_str()), (8080, 80, "tcp"));
    let h: HostEntry = "v6:::1".parse().unwrap();
    assert_eq!((h.host.as_str(), h.ip.as_str()), ("v6::", "1"));
    let u: UserSpec = "4294967295:7".parse().unwrap();
    assert_eq!((u.uid, u.gid), (4294967295, 7));
}

#[test]
fn an_option_is_not_both_true_and_false() {
    for s in ["k", "k=true", "k=1", "k=yes", "k=false", "k=0", "k=no", "k=maybe"] {
        let o: SecurityOpt = s.parse().unwrap();
        assert!(!(o.is_true() && o.is_false()), "{s}");
    }
}
