//! The command line, after its options have been read.
use vstd::prelude::*;

use crate::options::{
    DeviceSpec, HostEntry, NetworkMode, PortSpec, SeccompPolicy, SecurityOpt, SystemdMode, UserSpec,
    VolumeSpec,
};

verus! {

/// What the user asked for.
#[derive(Debug)]
pub struct Cli {
    /// The repository that holds the image.
    pub repo: Option<String>,
    /// Mount the root file system read-only.
    pub read_only: bool,
    /// With `read_only`: mount a tmpfs where programs expect to write.
    pub read_only_tmpfs: bool,
    /// Where the container's changes are kept.
    pub overlay_dir: Option<String>,
    pub volumes: Vec<VolumeSpec>,
    /// Allocate a pseudo-terminal.
    pub tty: bool,
    /// Accepted, and without meaning: a container always reads its input.
    pub interactive: bool,
    /// Run the command itself as the first process.
    pub no_init: bool,
    pub device: Vec<DeviceSpec>,
    /// All capabilities, no seccomp, no SELinux, access to all devices.
    pub privileged: bool,
    pub cap_add: Vec<String>,
    pub cap_drop: Vec<String>,
    /// Environment variables to set.
    pub envs: Vec<String>,
    /// Environment variables of the image to leave out.
    pub unsetenv: Vec<String>,
    pub user: Option<UserSpec>,
    pub workdir_override: Option<String>,
    /// For information only.
    pub expose: Vec<String>,
    pub publish: Vec<PortSpec>,
    pub hostname: Option<String>,
    pub add_host: Vec<HostEntry>,
    pub dns: Vec<String>,
    pub dns_search: Vec<String>,
    pub dns_option: Vec<String>,
    pub security_opt: Vec<SecurityOpt>,
    pub seccomp_policy: SeccompPolicy,
    pub network: Option<NetworkMode>,
    pub systemd: SystemdMode,
    /// A directory to use as the root file system in place of an image.
    pub rootfs: Option<String>,
    pub image: Option<String>,
    /// The command to run in place of the image's.
    pub cmd: Vec<String>,
}

/// The arguments of the cleanup that runs when a container has stopped.
#[derive(Debug)]
pub struct CleanupArgs {
    /// The state directory of the container.
    pub container_dir: Option<String>,
    pub container_id: Option<String>,
    /// The address that the container had on the bridge.
    pub container_ip: Option<String>,
    /// The process that connected the container.
    pub pasta_pid: Option<i32>,
}

/// The arguments of the process that serves an image through FUSE.
#[derive(Debug)]
pub struct FuseServeArgs {
    /// The repository that holds the image.
    pub repo: String,
    /// The image, by its identifier in the repository.
    pub image: String,
    /// The file descriptor that stands for the FUSE device.
    pub fuse_fd: i32,
}

} // verus!
