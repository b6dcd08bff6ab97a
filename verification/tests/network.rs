use composefs_run::error::RunError;
use composefs_run::etc::effective_dns;
use composefs_run::fork::{
    fork_role, netns_exit_code, server_action, ForkAction, ForkRole,
};
use composefs_run::fuse::{check_fuse_fd, fd_link, serve_arguments};
use composefs_run::network::{
    netns_created, network_mode, pasta_arguments, pasta_pid, pasta_started,
};
use composefs_run::options::{NetworkMode, PortSpec};

#[test]
fn the_default_network_depends_on_the_user() {
    assert_eq!(network_mode(None, true).unwrap(), NetworkMode::Pasta);
    assert_eq!(network_mode(None, false).unwrap(), NetworkMode::Bridge);
}

#[test]
fn pasta_needs_an_ordinary_user() {
    let e = network_mode(Some(NetworkMode::Pasta), false).unwrap_err();
    assert!(matches!(e, RunError::PastaNeedsRootless));
    assert_eq!(e.message(), "--network pasta is only supported in rootless mode");
    assert_eq!(network_mode(Some(NetworkMode::Pasta), true).unwrap(), NetworkMode::Pasta);
}

#[test]
fn the_bridge_needs_root() {
    let e = network_mode(Some(NetworkMode::Bridge), true).unwrap_err();
    assert!(matches!(e, RunError::BridgeNeedsRootful));
    assert_eq!(e.message(), "--network bridge is only supported in rootful mode");
}

#[test]
fn everybody_may_have_the_host_or_no_network() {
    for rootless in [false, true] {
        for mode in [NetworkMode::Host, NetworkMode::Private] {
            assert_eq!(network_mode(Some(mode), rootless).unwrap(), mode);
        }
    }
}

#[test]
fn a_wait_status_tells_how_the_child_ended() {
    assert!(netns_created(0).is_ok());
    // Exit code 1, a signal, a core dump.
    for status in [1 << 8, 9, 0x8b, 255 << 8] {
        let e = netns_created(status).unwrap_err();
        assert!(matches!(e, RunError::NetnsFailed));
        assert_eq!(e.message(), "Failed to create network namespace");
    }
}

#[test]
fn the_parent_learns_of_the_child() {
    assert!(netns_created(netns_exit_code(0, Some(0)) << 8).is_ok());
    assert!(netns_created(netns_exit_code(-1, None) << 8).is_err());
    assert!(netns_created(netns_exit_code(0, Some(-1)) << 8).is_err());
    assert_eq!(netns_exit_code(0, None), 1);
}

#[test]
fn pasta_without_ports_forwards_none() {
    assert_eq!(
        pasta_arguments("/b/netns", "/b/pasta.pid", &vec![]),
        vec![
            "--config-net",
            "--dns-forward",
            "169.254.1.1",
            "--netns",
            "/b/netns",
            "--pid",
            "/b/pasta.pid",
            "--quiet",
            "-t",
            "none",
            "-u",
            "none",
        ]
    );
}

#[test]
fn pasta_forwards_every_published_port_for_its_protocol() {
    let ports: Vec<PortSpec> = vec!["8080:80".parse().unwrap(), "53:53/udp".parse().unwrap()];
    let args = pasta_arguments("/b/netns", "/b/pasta.pid", &ports);
    assert_eq!(args[8..], ["-t", "8080:80", "-u", "53:53"]);
}

#[test]
fn pasta_answers_names_where_no_server_is_given() {
    let args = pasta_arguments("/b/netns", "/b/pasta.pid", &vec![]);
    assert_eq!(effective_dns(&vec![], NetworkMode::Pasta), vec![args[2].clone()]);
    assert!(effective_dns(&vec![], NetworkMode::Bridge).is_empty());
    assert_eq!(effective_dns(&vec!["1.1.1.1".into()], NetworkMode::Pasta), vec!["1.1.1.1"]);
}

#[test]
fn pasta_says_why_it_failed() {
    assert!(pasta_started(true, "noise").is_ok());
    let e = pasta_started(false, "no such namespace").unwrap_err();
    assert!(matches!(&e, RunError::PastaFailed(s) if s == "no such namespace"));
    assert_eq!(e.message(), "pasta failed: no such namespace");
}

#[test]
fn pasta_leaves_its_process_number() {
    assert_eq!(pasta_pid("4711\n").unwrap(), 4711);
    assert_eq!(pasta_pid("  -1 ").unwrap(), -1);
    for content in ["", "\n", "12 34", "pid", "2147483648"] {
        let e = pasta_pid(content).unwrap_err();
        assert!(matches!(e, RunError::PastaPid));
        assert_eq!(e.message(), "Parsing pasta PID");
    }
}

#[test]
fn a_fork_gives_each_process_its_role() {
    assert_eq!(fork_role(-1), ForkRole::Failed);
    assert_eq!(fork_role(0), ForkRole::Child);
    assert_eq!(fork_role(42), ForkRole::Parent(42));
}

#[test]
fn only_the_grandchild_serves() {
    assert_eq!(server_action(-1, None), ForkAction::Fail);
    assert_eq!(server_action(42, None), ForkAction::Wait(42));
    assert_eq!(server_action(0, None), ForkAction::ForkAgain);
    assert_eq!(server_action(0, Some(-1)), ForkAction::Exit(1));
    assert_eq!(server_action(0, Some(43)), ForkAction::Exit(0));
    assert_eq!(server_action(0, Some(0)), ForkAction::Serve);
}

#[test]
fn the_server_is_told_what_to_serve() {
    assert_eq!(
        serve_arguments("/repo", "ab12", 7),
        vec!["--internal-fuse-serve", "--repo", "/repo", "--image", "ab12", "--fuse-fd", "7"]
    );
    assert_eq!(fd_link(7), "/proc/self/fd/7");
}

#[test]
fn the_server_only_takes_the_fuse_device() {
    assert!(check_fuse_fd(7, "/dev/fuse").is_ok());
    assert!(check_fuse_fd(7, "/dev//fuse").is_ok());
    let e = check_fuse_fd(7, "/dev/null").unwrap_err();
    assert!(matches!(&e, RunError::NotFuse(7, s) if s == "/dev/null"));
    assert_eq!(e.message(), "--fuse-fd 7 does not point to /dev/fuse (got /dev/null)");
}
