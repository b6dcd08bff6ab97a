//! How a container is started, step by step.
//!
//! The work itself is done by the caller: it performs the action of the stage that it is in,
//! and [`next_stage`] says what comes behind it.
use vstd::prelude::*;
use vstd::string::*;

use crate::cleanup::{
    cleanup_begin_value, cleanup_end_value, is_container_dir, CleanupStepView,
};
use crate::cli::{CleanupArgs, Cli};
use crate::device::DeviceInfo;
use crate::error::{copy_option, opt_text, seen, RunError, RunErrorView};
use crate::invocation::{container_dir, overlay_dir};
use crate::invocation::{container_dir_value, overlay_dir_value};
use crate::network::network_mode;
use crate::network::network_mode_value;
use crate::network::{pasta_arguments, pasta_arguments_value};
use crate::options::{NetworkMode, PortSpec, PortView};
use crate::path::join_path;
use crate::path::{components, is_absolute, joined, law_join_adds_a_component};
use crate::rootfs::{choose_rootfs, mount_steps, MountStep, MountStepView, RootfsSource};
use crate::rootfs::{
    is_kernel_mount, is_served_mount, law_mount_steps_fit_the_user, mount_steps_value, rootfs_value,
};
use crate::runtime::{
    bundle_value, default_kinds, law_network_namespace, namespaces_of, poststop_value, NamespaceView,
};
use crate::runtime::{Launch, NamespaceKind};
use crate::settings::SettingsView;
use crate::text::{texts, views};

verus! {

/// What is known before a container is started.
#[derive(Debug)]
pub struct RunPlan {
    pub rootless: bool,
    pub container_id: String,
    pub container_dir: String,
    /// The network that the user asked for.
    pub network: Option<NetworkMode>,
    pub publish: Vec<PortSpec>,
    pub source: RootfsSource,
}

/// How the container was connected.
#[derive(Debug)]
pub struct Connection {
    pub network: NetworkMode,
    /// The network namespace, unless the container shares the host's.
    pub netns: Option<String>,
    /// The address on the bridge.
    pub address: Option<String>,
    /// The process that connects the container.
    pub pasta_pid: Option<i32>,
}

/// The model of a [`Connection`].
#[verifier::ext_equal]
pub struct ConnectionView {
    pub network: NetworkMode,
    pub netns: Option<Seq<char>>,
    pub address: Option<Seq<char>>,
    pub pasta_pid: Option<i32>,
}

impl View for Connection {
    type V = ConnectionView;

    open spec fn view(&self) -> ConnectionView {
        ConnectionView {
            network: self.network,
            netns: opt_text(self.netns),
            address: opt_text(self.address),
            pasta_pid: self.pasta_pid,
        }
    }
}

/// How far the start of a container has come.
#[derive(Debug)]
pub enum Stage {
    /// The mounts are taken apart from the host's.
    Isolating,
    /// Changes of the mounts are kept from the host.
    Privatizing,
    /// The bundle is set up.
    Bundling,
    /// The root file system is mounted.
    Mounting,
    /// The network namespace is made.
    Namespacing(NetworkMode),
    /// The container is connected to the bridge.
    Bridging,
    /// The container is connected by pasta.
    StartingPasta,
    /// The configuration is written.
    Configuring(Connection),
    /// The runtime takes over.
    Executing,
}

/// The model of a [`Stage`].
#[verifier::ext_equal]
pub enum StageView {
    Isolating,
    Privatizing,
    Bundling,
    Mounting,
    Namespacing(NetworkMode),
    Bridging,
    StartingPasta,
    Configuring(ConnectionView),
    Executing,
}

impl View for Stage {
    type V = StageView;

    open spec fn view(&self) -> StageView {
        match *self {
            Stage::Isolating => StageView::Isolating,
            Stage::Privatizing => StageView::Privatizing,
            Stage::Bundling => StageView::Bundling,
            Stage::Mounting => StageView::Mounting,
            Stage::Namespacing(mode) => StageView::Namespacing(mode),
            Stage::Bridging => StageView::Bridging,
            Stage::StartingPasta => StageView::StartingPasta,
            Stage::Configuring(connection) => StageView::Configuring(connection@),
            Stage::Executing => StageView::Executing,
        }
    }
}

/// What came of an action that was successful.
#[derive(Debug)]
pub enum Outcome {
    Done,
    /// The address that the container has on the bridge.
    Address(String),
    /// The process that connects the container.
    Process(i32),
}

/// The model of an [`Outcome`].
#[verifier::ext_equal]
pub enum OutcomeView {
    Done,
    Address(Seq<char>),
    Process(i32),
}

impl View for Outcome {
    type V = OutcomeView;

    open spec fn view(&self) -> OutcomeView {
        match *self {
            Outcome::Done => OutcomeView::Done,
            Outcome::Address(address) => OutcomeView::Address(address@),
            Outcome::Process(pid) => OutcomeView::Process(pid),
        }
    }
}

/// What is done in a stage.
#[derive(Debug)]
pub enum Action {
    /// Enter a user namespace with mounts of its own.
    EnterUserNamespace,
    /// Leave the mount namespace of the host.
    UnshareMounts,
    /// Make all mounts private.
    MakePrivate,
    /// Make the bundle directory and attach a file system with an empty `rootfs` to it.
    AttachBundle { bundle_dir: String },
    /// Mount the root file system.
    MountRootfs { steps: Vec<MountStep> },
    /// Make a network namespace and keep it at a path.
    CreateNetns { path: String },
    /// Connect a network namespace to the bridge, as that of a container with an id, and publish
    /// its ports.
    SetUpBridge { netns: String, id: String, publish: Vec<PortSpec> },
    /// Run pasta, which leaves its process number in a file.
    StartPasta { args: Vec<String>, pid_file: String },
    /// Write the configuration of the runtime.
    WriteConfig { path: String },
    /// Become the runtime.
    Execute { program: String, args: Vec<String> },
}

/// The model of an [`Action`].
#[verifier::ext_equal]
pub enum ActionView {
    EnterUserNamespace,
    UnshareMounts,
    MakePrivate,
    AttachBundle { bundle_dir: Seq<char> },
    MountRootfs { steps: Seq<MountStepView> },
    CreateNetns { path: Seq<char> },
    SetUpBridge { netns: Seq<char>, id: Seq<char>, publish: Seq<PortView> },
    StartPasta { args: Seq<Seq<char>>, pid_file: Seq<char> },
    WriteConfig { path: Seq<char> },
    Execute { program: Seq<char>, args: Seq<Seq<char>> },
}

impl View for Action {
    type V = ActionView;

    open spec fn view(&self) -> ActionView {
        match *self {
            Action::EnterUserNamespace => ActionView::EnterUserNamespace,
            Action::UnshareMounts => ActionView::UnshareMounts,
            Action::MakePrivate => ActionView::MakePrivate,
            Action::AttachBundle { bundle_dir } => ActionView::AttachBundle {
                bundle_dir: bundle_dir@,
            },
            Action::MountRootfs { steps } => ActionView::MountRootfs { steps: views(steps@) },
            Action::CreateNetns { path } => ActionView::CreateNetns { path: path@ },
            Action::SetUpBridge { netns, id, publish } => ActionView::SetUpBridge {
                netns: netns@,
                id: id@,
                publish: views(publish@),
            },
            Action::StartPasta { args, pid_file } => ActionView::StartPasta {
                args: texts(args@),
                pid_file: pid_file@,
            },
            Action::WriteConfig { path } => ActionView::WriteConfig { path: path@ },
            Action::Execute { program, args } => ActionView::Execute {
                program: program@,
                args: texts(args@),
            },
        }
    }
}

/// The directory that the runtime is given.
pub open spec fn bundle_dir_value(container_dir: Seq<char>) -> Seq<char> {
    joined(container_dir, "bundle"@)
}

/// Where the network namespace is kept.
pub open spec fn netns_value(container_dir: Seq<char>) -> Seq<char> {
    joined(bundle_dir_value(container_dir), "netns"@)
}

/// What is done in a stage.
pub open spec fn action_value(plan: RunPlan, stage: StageView) -> ActionView {
    let bundle_dir = bundle_dir_value(plan.container_dir@);
    let netns = netns_value(plan.container_dir@);
    match stage {
        StageView::Isolating => if plan.rootless {
            ActionView::EnterUserNamespace
        } else {
            ActionView::UnshareMounts
        },
        StageView::Privatizing => ActionView::MakePrivate,
        StageView::Bundling => ActionView::AttachBundle { bundle_dir },
        StageView::Mounting => ActionView::MountRootfs {
            steps: mount_steps_value(
                rootfs_value(plan.source, plan.rootless),
                plan.source.repo_path@,
                joined(bundle_dir, "rootfs"@),
            ),
        },
        StageView::Namespacing(_) => ActionView::CreateNetns { path: netns },
        StageView::Bridging => ActionView::SetUpBridge {
            netns,
            id: plan.container_id@,
            publish: views(plan.publish@),
        },
        StageView::StartingPasta => {
            let pid_file = joined(bundle_dir, "pasta.pid"@);
            ActionView::StartPasta {
                args: pasta_arguments_value(netns, pid_file, views(plan.publish@)),
                pid_file,
            }
        },
        StageView::Configuring(_) => ActionView::WriteConfig {
            path: joined(bundle_dir, "config.json"@),
        },
        StageView::Executing => ActionView::Execute {
            program: "crun"@,
            args: seq!["run"@, "--bundle"@, bundle_dir, plan.container_id@],
        },
    }
}

fn copy_ports(ports: &Vec<PortSpec>) -> (r: Vec<PortSpec>)
    ensures
        views(r@) == views(ports@),
{
    let ghost all = views(ports@);
    let mut r: Vec<PortSpec> = Vec::new();
    let mut i: usize = 0;
    while i < ports.len()
        invariant
            all == views(ports@),
            i <= ports@.len(),
            views(r@) == all.take(i as int),
        decreases ports@.len() - i,
    {
        let ghost before = views(r@);
        let port = ports[i].copy();
        r.push(port);
        assert(views(r@) =~= before.push(port@));
        assert(all.take(i + 1) =~= before.push(all[i as int]));
        i = i + 1;
    }
    assert(all.take(i as int) =~= all);
    r
}

/// What is known before a container is started, from what the user asked for. `image` is the name
/// that the image has in the repository.
pub fn plan_of(
    cli: &Cli,
    rootless: bool,
    container_id: String,
    repo_path: String,
    image: Option<String>,
) -> (r: RunPlan)
    ensures
        r.rootless == rootless,
        r.container_id@ == container_id@,
        r.container_dir@ == container_dir_value(container_id@),
        r.network == cli.network,
        views(r.publish@) == views(cli.publish@),
        opt_text(r.source.rootfs) == opt_text(cli.rootfs),
        r.source.repo_path@ == repo_path@,
        opt_text(r.source.image) == opt_text(image),
        r.source.overlay_dir@ == overlay_dir_value(opt_text(cli.overlay_dir), r.container_dir@),
        r.source.read_only == cli.read_only,
{
    let dir = container_dir(container_id.as_str());
    let overlay_dir = overlay_dir(&cli.overlay_dir, dir.as_str());
    RunPlan {
        rootless,
        container_id,
        container_dir: dir,
        network: cli.network,
        publish: copy_ports(&cli.publish),
        source: RootfsSource {
            rootfs: copy_option(&cli.rootfs),
            repo_path,
            image,
            overlay_dir,
            read_only: cli.read_only,
        },
    }
}

/// What is done in a stage.
pub fn action(plan: &RunPlan, stage: &Stage) -> (r: Action)
    ensures
        r@ == action_value(*plan, stage@),
{
    let bundle_dir = join_path(plan.container_dir.as_str(), "bundle");
    let netns = join_path(bundle_dir.as_str(), "netns");
    match stage {
        Stage::Isolating => if plan.rootless {
            Action::EnterUserNamespace
        } else {
            Action::UnshareMounts
        },
        Stage::Privatizing => Action::MakePrivate,
        Stage::Bundling => Action::AttachBundle { bundle_dir },
        Stage::Mounting => {
            let rootfs = choose_rootfs(&plan.source, plan.rootless);
            let target = join_path(bundle_dir.as_str(), "rootfs");
            Action::MountRootfs {
                steps: mount_steps(&rootfs, plan.source.repo_path.as_str(), target.as_str()),
            }
        },
        Stage::Namespacing(_) => Action::CreateNetns { path: netns },
        Stage::Bridging => Action::SetUpBridge {
            netns,
            id: plan.container_id.clone(),
            publish: copy_ports(&plan.publish),
        },
        Stage::StartingPasta => {
            let pid_file = join_path(bundle_dir.as_str(), "pasta.pid");
            Action::StartPasta {
                args: pasta_arguments(netns.as_str(), pid_file.as_str(), &plan.publish),
                pid_file,
            }
        },
        Stage::Configuring(_) => {
            Action::WriteConfig { path: join_path(bundle_dir.as_str(), "config.json") }
        },
        Stage::Executing => {
            let args: Vec<String> = vec![
                "run".to_owned(),
                "--bundle".to_owned(),
                bundle_dir.clone(),
                plan.container_id.clone(),
            ];
            assert(texts(args@) =~= seq![
                "run"@,
                "--bundle"@,
                bundle_dir@,
                plan.container_id@,
            ]);
            Action::Execute { program: "crun".to_owned(), args }
        },
    }
}

/// A connection in a namespace of its own.
pub open spec fn connected(
    plan: RunPlan,
    network: NetworkMode,
    address: Option<Seq<char>>,
    pasta_pid: Option<i32>,
) -> StageView {
    StageView::Configuring(
        ConnectionView {
            network,
            netns: Some(netns_value(plan.container_dir@)),
            address,
            pasta_pid,
        },
    )
}

/// What comes behind a stage whose action was successful. The network that the user asked for
/// is looked at when the root file system is there.
pub open spec fn next_stage_value(plan: RunPlan, stage: StageView, outcome: OutcomeView) -> Result<
    StageView,
    RunErrorView,
> {
    match stage {
        StageView::Isolating => Ok(StageView::Privatizing),
        StageView::Privatizing => Ok(StageView::Bundling),
        StageView::Bundling => Ok(StageView::Mounting),
        StageView::Mounting => match network_mode_value(plan.network, plan.rootless) {
            Err(e) => Err(e),
            Ok(NetworkMode::Host) => Ok(
                StageView::Configuring(
                    ConnectionView {
                        network: NetworkMode::Host,
                        netns: None,
                        address: None,
                        pasta_pid: None,
                    },
                ),
            ),
            Ok(mode) => Ok(StageView::Namespacing(mode)),
        },
        StageView::Namespacing(mode) => match mode {
            NetworkMode::Bridge => Ok(StageView::Bridging),
            NetworkMode::Pasta => Ok(StageView::StartingPasta),
            _ => Ok(connected(plan, mode, None, None)),
        },
        StageView::Bridging => Ok(
            connected(
                plan,
                NetworkMode::Bridge,
                match outcome {
                    OutcomeView::Address(address) => Some(address),
                    _ => None,
                },
                None,
            ),
        ),
        StageView::StartingPasta => Ok(
            connected(
                plan,
                NetworkMode::Pasta,
                None,
                match outcome {
                    OutcomeView::Process(pid) => Some(pid),
                    _ => None,
                },
            ),
        ),
        StageView::Configuring(_) => Ok(StageView::Executing),
        StageView::Executing => Ok(StageView::Executing),
    }
}

fn connect(
    plan: &RunPlan,
    network: NetworkMode,
    address: Option<String>,
    pasta_pid: Option<i32>,
) -> (r: Stage)
    ensures
        r@ == connected(*plan, network, opt_text(address), pasta_pid),
{
    let bundle_dir = join_path(plan.container_dir.as_str(), "bundle");
    let netns = Some(join_path(bundle_dir.as_str(), "netns"));
    Stage::Configuring(Connection { network, netns, address, pasta_pid })
}

/// What comes behind a stage whose action was successful.
pub fn next_stage(plan: &RunPlan, stage: &Stage, outcome: Outcome) -> (r: Result<Stage, RunError>)
    ensures
        seen(r) == next_stage_value(*plan, stage@, outcome@),
{
    match stage {
        Stage::Isolating => Ok(Stage::Privatizing),
        Stage::Privatizing => Ok(Stage::Bundling),
        Stage::Bundling => Ok(Stage::Mounting),
        Stage::Mounting => match network_mode(plan.network, plan.rootless) {
            Err(e) => Err(e),
            Ok(NetworkMode::Host) => Ok(
                Stage::Configuring(
                    Connection {
                        network: NetworkMode::Host,
                        netns: None,
                        address: None,
                        pasta_pid: None,
                    },
                ),
            ),
            Ok(mode) => Ok(Stage::Namespacing(mode)),
        },
        Stage::Namespacing(mode) => match mode {
            NetworkMode::Bridge => Ok(Stage::Bridging),
            NetworkMode::Pasta => Ok(Stage::StartingPasta),
            _ => Ok(connect(plan, *mode, None, None)),
        },
        Stage::Bridging => {
            let address = match outcome {
                Outcome::Address(address) => Some(address),
                _ => None,
            };
            Ok(connect(plan, NetworkMode::Bridge, address, None))
        },
        Stage::StartingPasta => {
            let pid = match outcome {
                Outcome::Process(pid) => Some(pid),
                _ => None,
            };
            Ok(connect(plan, NetworkMode::Pasta, None, pid))
        },
        Stage::Configuring(_) => Ok(Stage::Executing),
        Stage::Executing => Ok(Stage::Executing),
    }
}

/// Whether what the runtime is told rests on a plan and on how the container was connected.
pub open spec fn is_launch_of(plan: RunPlan, connection: ConnectionView, launch: Launch) -> bool {
    &&& launch.container_id@ == plan.container_id@
    &&& launch.container_dir@ == plan.container_dir@
    &&& launch.bundle_dir@ == bundle_dir_value(plan.container_dir@)
    &&& launch.rootless == plan.rootless
    &&& launch.network == connection.network
    &&& opt_text(launch.netns_path) == connection.netns
    &&& opt_text(launch.container_ip) == connection.address
    &&& launch.pasta_pid == connection.pasta_pid
}

/// How a container was set up: what was planned, how it was connected, and what the host says.
pub fn launch_of(
    plan: &RunPlan,
    connection: &Connection,
    tty: bool,
    process_label: Option<String>,
    mount_label: Option<String>,
    device_info: Vec<DeviceInfo>,
    host_resolv: String,
) -> (r: Launch)
    ensures
        is_launch_of(*plan, connection@, r),
        r.tty == tty,
        r.process_label == process_label,
        r.mount_label == mount_label,
        r.device_info == device_info,
        r.host_resolv == host_resolv,
{
    Launch {
        container_id: plan.container_id.clone(),
        container_dir: plan.container_dir.clone(),
        bundle_dir: join_path(plan.container_dir.as_str(), "bundle"),
        tty,
        rootless: plan.rootless,
        network: connection.network,
        netns_path: copy_option(&connection.netns),
        container_ip: copy_option(&connection.address),
        pasta_pid: connection.pasta_pid,
        process_label,
        mount_label,
        device_info,
        host_resolv,
    }
}

// ---------------------------------------------------------------------------------------
// Laws

/// Whether a stage can be reached: what it says of the network is what was asked for and
/// allowed.
pub open spec fn is_reached(plan: RunPlan, stage: StageView) -> bool {
    let mode = network_mode_value(plan.network, plan.rootless);
    match stage {
        StageView::Namespacing(m) => mode == Ok::<NetworkMode, RunErrorView>(m) && m
            != NetworkMode::Host,
        StageView::Bridging => mode == Ok::<NetworkMode, RunErrorView>(NetworkMode::Bridge),
        StageView::StartingPasta => mode == Ok::<NetworkMode, RunErrorView>(NetworkMode::Pasta),
        StageView::Configuring(c) => {
            &&& mode == Ok::<NetworkMode, RunErrorView>(c.network)
            &&& c.netns == if c.network == NetworkMode::Host {
                None
            } else {
                Some(netns_value(plan.container_dir@))
            }
            &&& c.address is Some <==> c.network == NetworkMode::Bridge
            &&& c.pasta_pid is Some <==> c.network == NetworkMode::Pasta
        },
        StageView::Executing => mode is Ok,
        _ => true,
    }
}

/// Whether an outcome belongs to a stage: the bridge gives an address, pasta a process, and the
/// other actions are just done.
pub open spec fn belongs(stage: StageView, outcome: OutcomeView) -> bool {
    match stage {
        StageView::Bridging => outcome is Address,
        StageView::StartingPasta => outcome is Process,
        _ => outcome is Done,
    }
}

/// Law: a start begins in a stage that can be reached, and an outcome that belongs to a stage
/// leads to another such stage or ends the start.
pub proof fn law_stages_stay_reached(plan: RunPlan, stage: StageView, outcome: OutcomeView)
    requires
        belongs(stage, outcome),
    ensures
        is_reached(plan, StageView::Isolating),
        is_reached(plan, stage) ==> (next_stage_value(plan, stage, outcome) matches Ok(next)
            ==> is_reached(plan, next)),
{
}

/// Law: no action of an ordinary user needs root, and root never takes the detour that
/// ordinary users have to take; nor does any step of mounting the root file system.
pub proof fn law_actions_fit_the_user(plan: RunPlan, stage: StageView)
    requires
        is_reached(plan, stage),
    ensures
        plan.rootless ==> !(action_value(plan, stage) is UnshareMounts) && !(action_value(
            plan,
            stage,
        ) is SetUpBridge),
        !plan.rootless ==> !(action_value(plan, stage) is EnterUserNamespace) && !(action_value(
            plan,
            stage,
        ) is StartPasta),
        action_value(plan, stage) matches ActionView::MountRootfs { steps } ==> forall|i: int|
            0 <= i < steps.len() ==> {
                &&& plan.rootless ==> !is_kernel_mount(#[trigger] steps[i])
                &&& !plan.rootless ==> !is_served_mount(steps[i])
            },
{
    if let ActionView::MountRootfs { steps } = action_value(plan, stage) {
        let target = joined(bundle_dir_value(plan.container_dir@), "rootfs"@);
        assert forall|i: int| 0 <= i < steps.len() implies {
            &&& plan.rootless ==> !is_kernel_mount(#[trigger] steps[i])
            &&& !plan.rootless ==> !is_served_mount(steps[i])
        } by {
            law_mount_steps_fit_the_user(plan.source, plan.rootless, target, i);
        }
    }
}

/// Law: the only thing that ends a start, besides an action that fails, is a network that the
/// user cannot have, and that is noticed before anything is connected.
pub proof fn law_only_the_network_is_refused(plan: RunPlan, stage: StageView, outcome: OutcomeView)
    ensures
        next_stage_value(plan, stage, outcome) is Err <==> stage is Mounting
            && network_mode_value(plan.network, plan.rootless) is Err,
{
}

/// How many actions come before the one of a stage, at most.
pub open spec fn rank(stage: StageView) -> nat {
    match stage {
        StageView::Isolating => 0,
        StageView::Privatizing => 1,
        StageView::Bundling => 2,
        StageView::Mounting => 3,
        StageView::Namespacing(_) => 4,
        StageView::Bridging => 5,
        StageView::StartingPasta => 5,
        StageView::Configuring(_) => 6,
        StageView::Executing => 7,
    }
}

/// Law: every action brings the start nearer to the runtime, which is only reached when the
/// configuration has been written.
pub proof fn law_the_runtime_is_reached(plan: RunPlan, stage: StageView, outcome: OutcomeView)
    ensures
        next_stage_value(plan, stage, outcome) matches Ok(next) ==> {
            &&& stage is Executing || rank(next) > rank(stage)
            &&& next is Executing ==> stage is Configuring || stage is Executing
        },
{
}

/// The stages that a start goes through, given what comes of each action.
pub open spec fn stages(plan: RunPlan, outcomes: Seq<OutcomeView>) -> Result<
    StageView,
    RunErrorView,
>
    decreases outcomes.len(),
{
    if outcomes.len() == 0 {
        Ok(StageView::Isolating)
    } else {
        match stages(plan, outcomes.drop_last()) {
            Err(e) => Err(e),
            Ok(stage) => next_stage_value(plan, stage, outcomes.last()),
        }
    }
}

/// Whether each outcome belongs to the stage in which it comes.
pub open spec fn all_belong(plan: RunPlan, outcomes: Seq<OutcomeView>) -> bool {
    forall|i: int|
        0 <= i < outcomes.len() ==> (stages(plan, #[trigger] outcomes.take(i)) matches Ok(stage)
            ==> belongs(stage, outcomes[i]))
}

/// Law: a start that goes on is in a stage that can be reached, and what is then known of the
/// connection is complete: there is an address exactly on the bridge, and a process exactly under
/// pasta.
pub proof fn law_connections_are_complete(plan: RunPlan, outcomes: Seq<OutcomeView>)
    requires
        all_belong(plan, outcomes),
    ensures
        stages(plan, outcomes) matches Ok(stage) ==> {
            &&& is_reached(plan, stage)
            &&& stage matches StageView::Configuring(c) ==> {
                &&& c.address is Some <==> c.network == NetworkMode::Bridge
                &&& c.pasta_pid is Some <==> c.network == NetworkMode::Pasta
            }
        },
    decreases outcomes.len(),
{
    if outcomes.len() > 0 {
        let front = outcomes.drop_last();
        let n = outcomes.len() - 1;
        assert(outcomes.take(n) =~= front);
        assert forall|i: int| 0 <= i < front.len() implies (stages(plan, #[trigger] front.take(i))
            matches Ok(stage) ==> belongs(stage, front[i])) by {
            assert(front.take(i) =~= outcomes.take(i));
        }
        law_connections_are_complete(plan, front);
        if let Ok(before) = stages(plan, front) {
            assert(belongs(before, outcomes[n]));
            law_stages_stay_reached(plan, before, outcomes.last());
        }
    }
}

/// Law: whatever comes of the actions, the runtime takes over after seven successful ones at most.
pub proof fn law_every_start_ends(plan: RunPlan, outcomes: Seq<OutcomeView>)
    ensures
        stages(plan, outcomes) matches Ok(stage) ==> {
            &&& outcomes.len() >= 7 ==> stage is Executing
            &&& rank(stage) >= outcomes.len() || stage is Executing
        },
    decreases outcomes.len(),
{
    if outcomes.len() > 0 {
        law_every_start_ends(plan, outcomes.drop_last());
        if let Ok(before) = stages(plan, outcomes.drop_last()) {
            law_the_runtime_is_reached(plan, before, outcomes.last());
        }
    }
}

/// Law: the network namespace that a start makes is the one that the cleanup takes down.
pub proof fn law_cleanup_finds_the_namespace(container_dir: Seq<char>)
    requires
        is_absolute(container_dir),
    ensures
        netns_value(container_dir) == joined(container_dir, "bundle/netns"@),
{
    reveal_strlit("bundle/netns");
    reveal_strlit("bundle");
    reveal_strlit("netns");
    reveal_strlit("/");
    assert(bundle_dir_value(container_dir).last() == 'e');
    assert(netns_value(container_dir) =~= joined(container_dir, "bundle/netns"@));
}

/// Law: when the configuration is written, the container has a network namespace of its own
/// exactly where it does not share the host's network, and it is the one that was made.
pub proof fn law_only_the_host_network_is_shared(
    plan: RunPlan,
    connection: ConnectionView,
    n: NamespaceView,
)
    requires
        is_reached(plan, StageView::Configuring(connection)),
        n.kind == NamespaceKind::Network,
    ensures
        namespaces_of(default_kinds(), connection.netns).contains(n) <==> connection.network
            != NetworkMode::Host && n.path == Some(netns_value(plan.container_dir@)),
{
    law_network_namespace(connection.netns, n);
}

/// Law: the runtime is told of the connection that was made. The container gets the namespace that
/// was made for it and no other, and the cleanup behind it is told the address that it has exactly
/// on the bridge, and the process that it has exactly under pasta.
pub proof fn law_the_runtime_is_told_of_the_connection(
    plan: RunPlan,
    connection: ConnectionView,
    cli: Cli,
    settings: SettingsView,
    launch: Launch,
    n: NamespaceView,
)
    requires
        is_reached(plan, StageView::Configuring(connection)),
        is_launch_of(plan, connection, launch),
        n.kind == NamespaceKind::Network,
    ensures
        bundle_value(cli, settings, launch) matches Ok(b) ==> {
            &&& b.config.linux.namespaces.contains(n) <==> connection.network != NetworkMode::Host
                && n.path == Some(netns_value(plan.container_dir@))
            &&& b.config.poststop_args == poststop_value(
                plan.container_dir@,
                plan.container_id@,
                connection.address,
                connection.pasta_pid,
            )
            &&& connection.address is Some <==> connection.network == NetworkMode::Bridge
            &&& connection.pasta_pid is Some <==> connection.network == NetworkMode::Pasta
        },
{
    law_only_the_host_network_is_shared(plan, connection, n);
}

/// Law: everything of a container lies in its bundle, which is the directory `bundle` of its state
/// directory. The runtime is run on the directory that was attached, under the container's name;
/// the configuration is the file `config.json` directly in it, the root file system is mounted at
/// `rootfs` in it, and so on. What connects the container works on the namespace that was made.
pub proof fn law_everything_lies_in_the_bundle(plan: RunPlan, mode: NetworkMode, c: ConnectionView)
    requires
        plan.container_dir@.len() > 0,
    ensures
        ({
            let bundle = components(plan.container_dir@).push("bundle"@);
            let made = action_value(plan, StageView::Namespacing(mode));
            &&& action_value(plan, StageView::Bundling) matches ActionView::AttachBundle {
                bundle_dir,
            } && components(bundle_dir) == bundle
            &&& action_value(plan, StageView::Executing) matches ActionView::Execute {
                program,
                args,
            } && program == "crun"@ && args.len() == 4 && args[0] == "run"@ && args[1]
                == "--bundle"@ && action_value(plan, StageView::Bundling) == (
            ActionView::AttachBundle { bundle_dir: args[2] }) && args[3] == plan.container_id@
            &&& action_value(plan, StageView::Configuring(c)) matches ActionView::WriteConfig {
                path,
            } && components(path) == bundle.push("config.json"@) && is_absolute(path)
                == is_absolute(plan.container_dir@)
            &&& made matches ActionView::CreateNetns { path } && components(path) == bundle.push(
                "netns"@,
            )
            &&& action_value(plan, StageView::Bridging) matches ActionView::SetUpBridge {
                netns,
                id,
                publish,
            } && made == (ActionView::CreateNetns { path: netns }) && id == plan.container_id@
                && publish == views(plan.publish@)
            &&& action_value(plan, StageView::StartingPasta) matches ActionView::StartPasta {
                args,
                pid_file,
            } && components(pid_file) == bundle.push("pasta.pid"@) && made == (
            ActionView::CreateNetns { path: args[4] }) && args == pasta_arguments_value(
                args[4],
                pid_file,
                views(plan.publish@),
            )
        }),
{
    lemma_bundle(plan.container_dir@);
    let bundle_dir = bundle_dir_value(plan.container_dir@);
    let args = seq!["run"@, "--bundle"@, bundle_dir, plan.container_id@];
    assert(args[2] == bundle_dir);
}

proof fn lemma_bundle(container_dir: Seq<char>)
    requires
        container_dir.len() > 0,
    ensures
        ({
            let dir = bundle_dir_value(container_dir);
            let bundle = components(container_dir).push("bundle"@);
            &&& components(dir) == bundle
            &&& is_absolute(dir) == is_absolute(container_dir)
            &&& components(joined(dir, "config.json"@)) == bundle.push("config.json"@)
            &&& is_absolute(joined(dir, "config.json"@)) == is_absolute(container_dir)
            &&& components(joined(dir, "rootfs"@)) == bundle.push("rootfs"@)
            &&& components(joined(dir, "netns"@)) == bundle.push("netns"@)
            &&& components(joined(dir, "pasta.pid"@)) == bundle.push("pasta.pid"@)
        }),
{
    reveal_strlit(".");
    reveal_strlit("/");
    reveal_strlit("bundle");
    reveal_strlit("config.json");
    reveal_strlit("rootfs");
    reveal_strlit("netns");
    reveal_strlit("pasta.pid");
    assert("."@.len() == 1);
    assert(!"bundle"@.contains('/'));
    assert(!"config.json"@.contains('/'));
    assert(!"rootfs"@.contains('/'));
    assert(!"netns"@.contains('/'));
    assert(!"pasta.pid"@.contains('/'));
    law_join_adds_a_component(container_dir, "bundle"@);
    let dir = bundle_dir_value(container_dir);
    assert(dir.len() > 0);
    law_join_adds_a_component(dir, "config.json"@);
    law_join_adds_a_component(dir, "rootfs"@);
    law_join_adds_a_component(dir, "netns"@);
    law_join_adds_a_component(dir, "pasta.pid"@);
}

/// Law: the root file system that was asked for is mounted at `rootfs` in the bundle, from the
/// repository that was asked for.
pub proof fn law_the_root_file_system_lies_in_the_bundle(plan: RunPlan)
    requires
        plan.container_dir@.len() > 0,
    ensures
        action_value(plan, StageView::Mounting) matches ActionView::MountRootfs { steps } && exists|
            target: Seq<char>,
        |
            components(target) == components(plan.container_dir@).push("bundle"@).push("rootfs"@)
                && steps == #[trigger] mount_steps_value(
                rootfs_value(plan.source, plan.rootless),
                plan.source.repo_path@,
                target,
            ),
{
    lemma_bundle(plan.container_dir@);
    let target = joined(bundle_dir_value(plan.container_dir@), "rootfs"@);
    assert(components(target) == components(plan.container_dir@).push("bundle"@).push("rootfs"@));
}

/// Law: a start first takes the mounts apart from the host's, as an ordinary user in a user
/// namespace and as root without one, and then keeps changes of them private.
pub proof fn law_mounts_are_isolated_first(plan: RunPlan)
    ensures
        action_value(plan, StageView::Isolating) == if plan.rootless {
            ActionView::EnterUserNamespace
        } else {
            ActionView::UnshareMounts
        },
        action_value(plan, StageView::Privatizing) == ActionView::MakePrivate,
{
}

/// Law: each stage has its place in a start: which one comes next is settled by the one before and,
/// behind the root file system, by the network that the user has. No stage is left out.
pub proof fn law_the_order_of_a_start(plan: RunPlan, stage: StageView, outcome: OutcomeView)
    ensures
        next_stage_value(plan, stage, outcome) matches Ok(next) ==> {
            let mode = network_mode_value(plan.network, plan.rootless);
            &&& !(next is Isolating)
            &&& next is Privatizing <==> stage is Isolating
            &&& next is Bundling <==> stage is Privatizing
            &&& next is Mounting <==> stage is Bundling
            &&& next is Namespacing ==> stage is Mounting && mode == Ok::<
                NetworkMode,
                RunErrorView,
            >(next->Namespacing_0)
            &&& stage is Mounting && mode != Ok::<NetworkMode, RunErrorView>(NetworkMode::Host)
                ==> next is Namespacing
            &&& stage is Mounting && mode == Ok::<NetworkMode, RunErrorView>(NetworkMode::Host)
                ==> next is Configuring
            &&& next is Bridging <==> stage == StageView::Namespacing(NetworkMode::Bridge)
            &&& next is StartingPasta <==> stage == StageView::Namespacing(NetworkMode::Pasta)
            &&& stage is Bridging || stage is StartingPasta ==> next is Configuring
            &&& next is Executing <==> stage is Configuring || stage is Executing
        },
{
}

/// Law: what came of connecting the container is kept: its network, the namespace that was made for
/// it, and the address or the process that was handed back.
pub proof fn law_the_connection_is_kept(plan: RunPlan, address: Seq<char>, pid: i32)
    ensures
        next_stage_value(plan, StageView::Bridging, OutcomeView::Address(address)) == Ok::<
            StageView,
            RunErrorView,
        >(
            StageView::Configuring(
                ConnectionView {
                    network: NetworkMode::Bridge,
                    netns: Some(joined(joined(plan.container_dir@, "bundle"@), "netns"@)),
                    address: Some(address),
                    pasta_pid: None,
                },
            ),
        ),
        next_stage_value(plan, StageView::StartingPasta, OutcomeView::Process(pid)) == Ok::<
            StageView,
            RunErrorView,
        >(
            StageView::Configuring(
                ConnectionView {
                    network: NetworkMode::Pasta,
                    netns: Some(joined(joined(plan.container_dir@, "bundle"@), "netns"@)),
                    address: None,
                    pasta_pid: Some(pid),
                },
            ),
        ),
        next_stage_value(
            plan,
            StageView::Namespacing(NetworkMode::Private),
            OutcomeView::Done,
        ) == Ok::<StageView, RunErrorView>(
            StageView::Configuring(
                ConnectionView {
                    network: NetworkMode::Private,
                    netns: Some(joined(joined(plan.container_dir@, "bundle"@), "netns"@)),
                    address: None,
                    pasta_pid: None,
                },
            ),
        ),
        network_mode_value(plan.network, plan.rootless) == Ok::<NetworkMode, RunErrorView>(
            NetworkMode::Host,
        ) ==> next_stage_value(plan, StageView::Mounting, OutcomeView::Done) == Ok::<
            StageView,
            RunErrorView,
        >(
            StageView::Configuring(
                ConnectionView {
                    network: NetworkMode::Host,
                    netns: None,
                    address: None,
                    pasta_pid: None,
                },
            ),
        ),
{
}

/// Law: a launch is that of the container that was planned: its name, its directories and whose it
/// is.
pub proof fn law_a_launch_is_of_its_plan(plan: RunPlan, connection: ConnectionView, launch: Launch)
    requires
        is_launch_of(plan, connection, launch),
        plan.container_dir@.len() > 0,
    ensures
        launch.container_id@ == plan.container_id@,
        launch.container_dir@ == plan.container_dir@,
        launch.rootless == plan.rootless,
        launch.network == connection.network,
        opt_text(launch.netns_path) == connection.netns,
        opt_text(launch.container_ip) == connection.address,
        launch.pasta_pid == connection.pasta_pid,
        action_value(plan, StageView::Bundling) == (ActionView::AttachBundle {
            bundle_dir: launch.bundle_dir@,
        }),
{
}

/// Law: the cleanup takes back what a start has done: it detaches the root file system from where
/// it was mounted and ends the process that connected the container; then it disconnects the
/// container, where it is told its name and address, from the namespace that was made, detaches
/// that one and the bundle, and removes the state directory. It does nothing else.
pub proof fn law_the_cleanup_takes_back_the_start(
    plan: RunPlan,
    mode: NetworkMode,
    args: CleanupArgs,
    netns_exists: bool,
)
    requires
        args.container_dir is Some,
        args.container_dir->0@ == plan.container_dir@,
        is_container_dir(plan.container_dir@),
    ensures
        ({
            let begin = cleanup_begin_value(args)->Ok_0;
            let end = cleanup_end_value(args, netns_exists)->Ok_0;
            let made = action_value(plan, StageView::Namespacing(mode));
            let told = args.container_id is Some && args.container_ip is Some;
            let before = if !netns_exists {
                0
            } else if told {
                2
            } else {
                1int
            };
            &&& cleanup_begin_value(args) is Ok && cleanup_end_value(args, netns_exists) is Ok
            &&& begin.len() == if args.pasta_pid is Some {
                2
            } else {
                1int
            }
            &&& begin[0] matches CleanupStepView::Unmount(path) && components(path) == components(
                plan.container_dir@,
            ).push("bundle"@).push("rootfs"@)
            &&& args.pasta_pid matches Some(pid) ==> begin[1] == CleanupStepView::Terminate(
                pid as int,
            )
            &&& end.len() == before + 2
            &&& netns_exists && told ==> (end[0] matches CleanupStepView::Disconnect {
                netns,
                id,
                ip,
            } && made == (ActionView::CreateNetns { path: netns }) && id == args.container_id->0@
                && ip == args.container_ip->0@)
            &&& netns_exists ==> (end[before - 1] matches CleanupStepView::Unmount(path) && made
                == (ActionView::CreateNetns { path }))
            &&& end[before] matches CleanupStepView::Unmount(path) && action_value(
                plan,
                StageView::Bundling,
            ) == (ActionView::AttachBundle { bundle_dir: path })
            &&& end[before + 1] == CleanupStepView::RemoveDir(plan.container_dir@)
        }),
{
    let dir = plan.container_dir@;
    lemma_bundle(dir);
    law_cleanup_finds_the_namespace(dir);
    reveal_strlit("bundle/rootfs");
    reveal_strlit("bundle");
    reveal_strlit("rootfs");
    reveal_strlit("/");
    assert(bundle_dir_value(dir).last() == 'e');
    assert(joined(dir, "bundle/rootfs"@) =~= joined(bundle_dir_value(dir), "rootfs"@));
}

/// Law: a start that is ended says that the network cannot be had, and why.
pub proof fn law_a_refusal_says_why(plan: RunPlan, stage: StageView, outcome: OutcomeView)
    ensures
        next_stage_value(plan, stage, outcome) matches Err(e) ==> if plan.rootless {
            e == RunErrorView::BridgeNeedsRootful && plan.network == Some(NetworkMode::Bridge)
        } else {
            e == RunErrorView::PastaNeedsRootless && plan.network == Some(NetworkMode::Pasta)
        },
{
}

} // verus!
