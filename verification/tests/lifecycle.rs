use composefs_run::cleanup::{cleanup_begin, cleanup_end, is_state_dir, netns_place, CleanupStep};
use composefs_run::cli::CleanupArgs;
use composefs_run::error::RunError;
use composefs_run::fuse::serve_arguments;
use composefs_run::image::{image_reference, ImageReference};
use composefs_run::invocation::{
    check_rootfs, container_dir, container_id, invocation, overlay_dir, repository, Invocation,
};
use composefs_run::options::{NetworkMode, PortSpec};
use composefs_run::rootfs::{
    choose_rootfs, goes_on, mount_steps, overlay_settings, DirOutcome, MountStep, Rootfs,
    RootfsSource,
};
use composefs_run::run::{action, launch_of, next_stage, Action, Outcome, RunPlan, Stage};
use composefs_run::text::first_bytes;

fn source() -> RootfsSource {
    RootfsSource {
        rootfs: None,
        repo_path: "/repo".into(),
        image: Some("ab12".into()),
        overlay_dir: "/var/tmp/cfsrun-c".into(),
        read_only: false,
    }
}

fn plan(rootless: bool, network: Option<NetworkMode>) -> RunPlan {
    RunPlan {
        rootless,
        container_id: "c".into(),
        container_dir: "/var/tmp/cfsrun-c".into(),
        network,
        publish: vec!["8080:80".parse::<PortSpec>().unwrap()],
        source: source(),
    }
}

/// Goes through a start, every action of which is successful.
fn walk(plan: &RunPlan) -> Result<Vec<String>, RunError> {
    let mut names = Vec::new();
    let mut stage = Stage::Isolating;
    loop {
        let a = action(plan, &stage);
        let name = format!("{:?}", a);
        names.push(name.split([' ', '{', '(']).next().unwrap().to_string());
        let outcome = match a {
            Action::Execute { .. } => return Ok(names),
            Action::SetUpBridge { .. } => Outcome::Address("10.89.0.2".into()),
            Action::StartPasta { .. } => Outcome::Process(4711),
            _ => Outcome::Done,
        };
        stage = next_stage(plan, &stage, outcome)?;
    }
}

fn cleanup_args(dir: Option<&str>) -> CleanupArgs {
    CleanupArgs {
        container_dir: dir.map(|s| s.to_string()),
        container_id: Some("c".into()),
        container_ip: None,
        pasta_pid: None,
    }
}

#[test]
fn the_first_argument_says_what_is_done() {
    assert_eq!(invocation(&Some("--internal-cleanup".into())), Invocation::Cleanup);
    assert_eq!(invocation(&Some("--internal-fuse-serve".into())), Invocation::FuseServe);
    assert_eq!(invocation(&Some("cs10".into())), Invocation::Run);
    assert_eq!(invocation(&None), Invocation::Run);
}

#[test]
fn a_container_is_named_after_its_process() {
    assert_eq!(container_id(1234), "composefs-1234");
    assert_eq!(container_dir("composefs-1234"), "/var/tmp/cfsrun-composefs-1234");
    assert_eq!(first_bytes(&container_id(1234), 12), "composefs-12");
}

#[test]
fn its_own_directory_is_one_that_the_runner_cleans_up() {
    for pid in [0, 1, 4711, u32::MAX] {
        assert!(is_state_dir(&container_dir(&container_id(pid))));
    }
    assert!(is_state_dir(&container_dir("any name")));
    assert!(!is_state_dir(&container_dir("a/b")));
}

#[test]
fn changes_are_kept_where_the_user_says() {
    assert_eq!(overlay_dir(&Some("/o".into()), "/var/tmp/cfsrun-c"), "/o");
    assert_eq!(overlay_dir(&None, "/var/tmp/cfsrun-c"), "/var/tmp/cfsrun-c");
}

#[test]
fn the_repository_depends_on_the_user() {
    assert_eq!(repository(&Some("/r".into()), true).as_deref(), Some("/r"));
    assert_eq!(repository(&Some("/r".into()), false).as_deref(), Some("/r"));
    assert_eq!(repository(&None, true), None);
    assert_eq!(repository(&None, false).as_deref(), Some("/sysroot/composefs"));
}

#[test]
fn a_root_file_system_is_a_directory() {
    assert!(check_rootfs("/srv/root", true).is_ok());
    let e = check_rootfs("/etc/passwd", false).unwrap_err();
    assert!(matches!(&e, RunError::RootfsNotDirectory(s) if s == "/etc/passwd"));
    assert_eq!(e.message(), "--rootfs path '/etc/passwd' is not a directory");
}

#[test]
fn an_image_is_a_name_or_a_digest() {
    let digest = "sha256:6c3c624b58dbbcd3c0dd82b4c53f04194d1247c6eebdaab7c610cf7d66709b3b";
    assert!(matches!(
        image_reference(&Some("cs10".into())).unwrap(),
        ImageReference::Name(s) if s == "cs10"
    ));
    assert!(matches!(
        image_reference(&Some(format!("@{digest}"))).unwrap(),
        ImageReference::Digest(s) if s == digest
    ));
    assert!(matches!(
        image_reference(&Some("@multihash+base58:QmRZx".into())).unwrap(),
        ImageReference::Digest(_)
    ));
}

#[test]
fn what_is_no_digest_is_refused() {
    for s in [
        "@", "@foo", "@:", "@blah+", "@_digest:somevalue", "@:blah", "@blah:", "@FooBar:123abc",
        "@a..b:c", "@sha256:1234", "@sha256:123456*78", "@sha384:x", "@foo:b r",
        "@sha256:6C3c624b58dbbcd3c0dd82b4c53f04194d1247c6eebdaab7c610cf7d66709b3b",
    ] {
        let e = image_reference(&Some(s.into())).unwrap_err();
        assert!(matches!(e, RunError::BadDigest), "{s}");
        assert_eq!(e.message(), "Parsing manifest digest");
    }
}

#[test]
fn an_image_has_to_be_named() {
    let e = image_reference(&None).unwrap_err();
    assert!(matches!(e, RunError::NoImage));
    assert_eq!(e.message(), "No image specified");
}

#[test]
fn an_ordinary_user_starts_a_container() {
    assert_eq!(
        walk(&plan(true, None)).unwrap(),
        vec![
            "EnterUserNamespace",
            "MakePrivate",
            "AttachBundle",
            "MountRootfs",
            "CreateNetns",
            "StartPasta",
            "WriteConfig",
            "Execute",
        ]
    );
}

#[test]
fn root_starts_a_container() {
    assert_eq!(
        walk(&plan(false, None)).unwrap(),
        vec![
            "UnshareMounts",
            "MakePrivate",
            "AttachBundle",
            "MountRootfs",
            "CreateNetns",
            "SetUpBridge",
            "WriteConfig",
            "Execute",
        ]
    );
}

#[test]
fn the_host_network_needs_no_namespace() {
    assert_eq!(
        walk(&plan(true, Some(NetworkMode::Host))).unwrap(),
        vec![
            "EnterUserNamespace",
            "MakePrivate",
            "AttachBundle",
            "MountRootfs",
            "WriteConfig",
            "Execute",
        ]
    );
}

#[test]
fn a_private_network_is_a_namespace_and_nothing_more() {
    assert_eq!(
        walk(&plan(false, Some(NetworkMode::Private))).unwrap(),
        vec![
            "UnshareMounts",
            "MakePrivate",
            "AttachBundle",
            "MountRootfs",
            "CreateNetns",
            "WriteConfig",
            "Execute",
        ]
    );
}

#[test]
fn a_network_that_the_user_cannot_have_ends_the_start() {
    assert!(matches!(
        walk(&plan(true, Some(NetworkMode::Bridge))),
        Err(RunError::BridgeNeedsRootful)
    ));
    assert!(matches!(
        walk(&plan(false, Some(NetworkMode::Pasta))),
        Err(RunError::PastaNeedsRootless)
    ));
}

#[test]
fn the_outcomes_of_a_start_are_kept() {
    let p = plan(false, None);
    match next_stage(&p, &Stage::Bridging, Outcome::Address("10.89.0.2".into())).unwrap() {
        Stage::Configuring(c) => {
            assert_eq!(c.network, NetworkMode::Bridge);
            assert_eq!(c.netns.as_deref(), Some("/var/tmp/cfsrun-c/bundle/netns"));
            assert_eq!(c.address.as_deref(), Some("10.89.0.2"));
            assert_eq!(c.pasta_pid, None);
        }
        other => panic!("{:?}", other),
    }
    let p = plan(true, None);
    match next_stage(&p, &Stage::StartingPasta, Outcome::Process(4711)).unwrap() {
        Stage::Configuring(c) => {
            assert_eq!(c.network, NetworkMode::Pasta);
            assert_eq!(c.address, None);
            assert_eq!(c.pasta_pid, Some(4711));
        }
        other => panic!("{:?}", other),
    }
}

#[test]
fn the_bridge_is_told_whom_to_connect() {
    match action(&plan(false, None), &Stage::Bridging) {
        Action::SetUpBridge { netns, id, publish } => {
            assert_eq!(netns, "/var/tmp/cfsrun-c/bundle/netns");
            assert_eq!(id, "c");
            assert_eq!(publish.len(), 1);
            assert_eq!((publish[0].host_port, publish[0].container_port), (8080, 80));
            assert_eq!(publish[0].protocol, "tcp");
        }
        other => panic!("{:?}", other),
    }
}

#[test]
fn the_connection_is_handed_to_the_runtime() {
    let p = plan(false, None);
    let connected = next_stage(&p, &Stage::Bridging, Outcome::Address("10.89.0.2".into()));
    match connected.unwrap() {
        Stage::Configuring(c) => {
            let l = launch_of(
                &p,
                &c,
                true,
                Some("proc_t".into()),
                Some("file_t".into()),
                vec![],
                "nameserver 10.0.0.1\n".into(),
            );
            assert_eq!(l.container_id, "c");
            assert_eq!(l.container_dir, "/var/tmp/cfsrun-c");
            assert_eq!(l.bundle_dir, "/var/tmp/cfsrun-c/bundle");
            assert!(l.tty && !l.rootless);
            assert_eq!(l.network, NetworkMode::Bridge);
            assert_eq!(l.netns_path.as_deref(), Some("/var/tmp/cfsrun-c/bundle/netns"));
            assert_eq!(l.container_ip.as_deref(), Some("10.89.0.2"));
            assert_eq!(l.pasta_pid, None);
            assert_eq!(l.process_label.as_deref(), Some("proc_t"));
            assert_eq!(l.mount_label.as_deref(), Some("file_t"));
            assert_eq!(l.host_resolv, "nameserver 10.0.0.1\n");
        }
        other => panic!("{:?}", other),
    }
}

#[test]
fn the_actions_name_their_places() {
    let p = plan(true, None);
    match action(&p, &Stage::StartingPasta) {
        Action::StartPasta { args, pid_file } => {
            assert_eq!(pid_file, "/var/tmp/cfsrun-c/bundle/pasta.pid");
            assert_eq!(args[4], "/var/tmp/cfsrun-c/bundle/netns");
            assert_eq!(args[6], pid_file);
            assert_eq!(args[9], "8080:80");
        }
        other => panic!("{:?}", other),
    }
    match action(&p, &Stage::Executing) {
        Action::Execute { program, args } => {
            assert_eq!(program, "crun");
            assert_eq!(args, vec!["run", "--bundle", "/var/tmp/cfsrun-c/bundle", "c"]);
        }
        other => panic!("{:?}", other),
    }
    match action(&p, &Stage::Mounting) {
        Action::MountRootfs { steps } => {
            assert!(matches!(
                steps.last().unwrap(),
                MountStep::Attach { target } if target == "/var/tmp/cfsrun-c/bundle/rootfs"
            ));
        }
        other => panic!("{:?}", other),
    }
}

/// The names of the steps that mount a root file system.
fn step_names(s: &RootfsSource, rootless: bool) -> Vec<String> {
    mount_steps(&choose_rootfs(s, rootless), &s.repo_path, "/t")
        .iter()
        .map(|step| format!("{:?}", step).split([' ', '{', '(']).next().unwrap().to_string())
        .collect()
}

#[test]
fn an_image_is_served_for_an_ordinary_user() {
    assert_eq!(
        step_names(&source(), true),
        vec![
            "OpenFuse",
            "Serve",
            "OpenObjects",
            "MakeDir",
            "MakeDir",
            "UseOverlay",
            "MountServed",
            "Attach",
        ]
    );
    assert_eq!(
        step_names(&RootfsSource { read_only: true, ..source() }, true),
        vec!["OpenFuse", "Serve", "OpenObjects", "MountServed", "Attach"]
    );
}

#[test]
fn an_image_is_mounted_by_the_kernel_for_root() {
    assert_eq!(
        step_names(&source(), false),
        vec!["OpenRepository", "MakeDir", "MakeDir", "UseOverlay", "MountImage", "Attach"]
    );
    assert_eq!(
        step_names(&RootfsSource { read_only: true, ..source() }, false),
        vec!["OpenRepository", "MountImage", "Attach"]
    );
}

#[test]
fn an_image_without_a_file_system_is_refused() {
    assert_eq!(
        step_names(&RootfsSource { image: None, ..source() }, true),
        vec!["OpenFuse", "Refuse"]
    );
    assert_eq!(
        step_names(&RootfsSource { image: None, read_only: true, ..source() }, false),
        vec!["OpenRepository", "Refuse"]
    );
    assert_eq!(RunError::NoFileSystem.message(), "No composefs image");
}

#[test]
fn a_directory_of_the_host_is_bound_or_overlaid() {
    let s = RootfsSource { rootfs: Some("/srv/root".into()), ..source() };
    assert_eq!(
        step_names(&s, true),
        vec![
            "MakeDir",
            "MakeDir",
            "OpenOverlay",
            "Configure",
            "Configure",
            "Configure",
            "Configure",
            "CreateOverlay",
            "Attach",
        ]
    );
    assert_eq!(
        step_names(&RootfsSource { read_only: true, ..s }, true),
        vec!["Bind", "RemountReadOnly"]
    );
}

#[test]
fn an_overlay_is_set_up() {
    let s = RootfsSource { rootfs: Some("/srv/root".into()), ..source() };
    match choose_rootfs(&s, false) {
        Rootfs::Overlay { lower, dirs, userxattr } => {
            assert!(!userxattr);
            let settings: Vec<(String, Option<String>)> = overlay_settings(&lower, &dirs, true)
                .into_iter()
                .map(|s| (s.key, s.value))
                .collect();
            assert_eq!(
                settings,
                vec![
                    ("lowerdir".into(), Some("/srv/root".into())),
                    ("upperdir".into(), Some("/var/tmp/cfsrun-c/upper".into())),
                    ("workdir".into(), Some("/var/tmp/cfsrun-c/work".into())),
                    ("userxattr".into(), None),
                ]
            );
            assert_eq!(overlay_settings(&lower, &dirs, false).len(), 3);
        }
        other => panic!("{:?}", other),
    }
}

#[test]
fn an_overlay_can_be_used_again() {
    for rootless in [false, true] {
        for rootfs in [None, Some("/srv/root".to_string())] {
            let s = RootfsSource { rootfs, ..source() };
            let made: Vec<String> = mount_steps(&choose_rootfs(&s, rootless), &s.repo_path, "/t")
                .into_iter()
                .filter_map(|step| match step {
                    MountStep::MakeDir { path } => Some(path),
                    _ => None,
                })
                .collect();
            assert_eq!(made, vec!["/var/tmp/cfsrun-c/upper", "/var/tmp/cfsrun-c/work"]);
        }
    }
    assert!(goes_on(DirOutcome::AlreadyExists));
    assert!(goes_on(DirOutcome::Created));
    assert!(!goes_on(DirOutcome::Failed));
}

#[test]
fn cleanup_without_a_directory_does_nothing() {
    let args = cleanup_args(None);
    assert!(cleanup_begin(&args).unwrap().is_empty());
    assert!(cleanup_end(&args, true).unwrap().is_empty());
    assert_eq!(netns_place(&args), None);
}

#[test]
fn cleanup_refuses_foreign_directories() {
    for dir in [
        "/var/tmp", "/var/tmp/other", "/tmp/cfsrun-c", "var/tmp/cfsrun-c", "/var/tmp/a/cfsrun-c",
        "/var/tmp/cfsrun-c/bundle", "/var/tmp/cfsrun-c/..", "/", "", "/var/tmp/../tmp/cfsrun-c",
    ] {
        let args = cleanup_args(Some(dir));
        let e = cleanup_begin(&args).unwrap_err();
        assert!(matches!(e, RunError::ForeignContainerDir), "{dir}");
        assert_eq!(e.message(), "--container-dir must be under /var/tmp/cfsrun-*");
        assert!(cleanup_end(&args, false).is_err());
        let p = std::path::Path::new(dir);
        assert!(
            p.parent() != Some(std::path::Path::new("/var/tmp"))
                || !p.file_name().and_then(|n| n.to_str()).is_some_and(|n| n.starts_with("cfsrun-"))
        );
    }
    for dir in ["/var/tmp/cfsrun-c", "/var/tmp/cfsrun-", "/var/tmp/cfsrun-c/", "//var/./tmp//cfsrun-c"] {
        assert!(cleanup_begin(&cleanup_args(Some(dir))).is_ok(), "{dir}");
        assert_eq!(
            std::path::Path::new(dir).parent(),
            Some(std::path::Path::new("/var/tmp"))
        );
    }
}

#[test]
fn cleanup_of_a_bridged_container() {
    let args = CleanupArgs {
        container_ip: Some("10.89.0.2".into()),
        ..cleanup_args(Some("/var/tmp/cfsrun-c"))
    };
    let first = cleanup_begin(&args).unwrap();
    assert_eq!(first.len(), 1);
    assert!(matches!(
        &first[0],
        CleanupStep::Unmount(p) if p == "/var/tmp/cfsrun-c/bundle/rootfs"
    ));
    assert_eq!(netns_place(&args).as_deref(), Some("/var/tmp/cfsrun-c/bundle/netns"));
    let last = cleanup_end(&args, true).unwrap();
    assert_eq!(last.len(), 4);
    assert!(matches!(
        &last[0],
        CleanupStep::Disconnect { netns, id, ip }
            if netns == "/var/tmp/cfsrun-c/bundle/netns" && id == "c" && ip == "10.89.0.2"
    ));
    assert!(matches!(
        &last[1],
        CleanupStep::Unmount(p) if p == "/var/tmp/cfsrun-c/bundle/netns"
    ));
    assert!(matches!(&last[2], CleanupStep::Unmount(p) if p == "/var/tmp/cfsrun-c/bundle"));
    assert!(matches!(&last[3], CleanupStep::RemoveDir(p) if p == "/var/tmp/cfsrun-c"));
}

#[test]
fn cleanup_of_a_container_under_pasta() {
    let args = CleanupArgs {
        pasta_pid: Some(4711),
        ..cleanup_args(Some("/var/tmp/cfsrun-c"))
    };
    let first = cleanup_begin(&args).unwrap();
    assert_eq!(first.len(), 2);
    assert!(matches!(first[1], CleanupStep::Terminate(4711)));
    assert_eq!(cleanup_end(&args, true).unwrap().len(), 3);
    assert_eq!(cleanup_end(&args, false).unwrap().len(), 2);
}

#[test]
fn the_cleanup_finds_the_namespace_of_the_start() {
    let p = plan(true, Some(NetworkMode::Private));
    match action(&p, &Stage::Namespacing(NetworkMode::Private)) {
        Action::CreateNetns { path } => {
            assert_eq!(netns_place(&cleanup_args(Some(&p.container_dir))), Some(path));
        }
        other => panic!("{:?}", other),
    }
}

#[test]
fn the_runner_calls_itself() {
    assert_eq!(
        invocation(&Some(serve_arguments("/repo", "ab12", 7)[0].clone())),
        Invocation::FuseServe
    );
}
