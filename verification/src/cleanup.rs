//! What is done when a container has stopped.
use vstd::prelude::*;
use vstd::string::*;

use crate::cli::CleanupArgs;
use crate::error::{RunError, RunErrorView};
use crate::path::{components, is_absolute, is_named, joined, law_join_adds_a_component};
use crate::path::{join_path, path_components, path_is_absolute};
use crate::text::{same_text, starts_with, texts, views};

verus! {

/// Something that is done when a container has stopped.
#[derive(Debug)]
pub enum CleanupStep {
    /// Detach what is mounted at a path.
    Unmount(String),
    /// Ask a process to end.
    Terminate(i32),
    /// Disconnect the container with an id and an address from the bridge.
    Disconnect { netns: String, id: String, ip: String },
    /// Remove a directory with all that it holds.
    RemoveDir(String),
}

/// The model of a [`CleanupStep`].
#[verifier::ext_equal]
pub enum CleanupStepView {
    Unmount(Seq<char>),
    Terminate(int),
    Disconnect { netns: Seq<char>, id: Seq<char>, ip: Seq<char> },
    RemoveDir(Seq<char>),
}

impl View for CleanupStep {
    type V = CleanupStepView;

    open spec fn view(&self) -> CleanupStepView {
        match *self {
            CleanupStep::Unmount(path) => CleanupStepView::Unmount(path@),
            CleanupStep::Terminate(pid) => CleanupStepView::Terminate(pid as int),
            CleanupStep::Disconnect { netns, id, ip } => CleanupStepView::Disconnect {
                netns: netns@,
                id: id@,
                ip: ip@,
            },
            CleanupStep::RemoveDir(path) => CleanupStepView::RemoveDir(path@),
        }
    }
}

/// Whether a path is the state directory of a container: something directly under `/var/tmp`
/// whose name starts with `cfsrun-`.
pub open spec fn is_container_dir(dir: Seq<char>) -> bool {
    let parts = components(dir);
    is_absolute(dir) && parts.len() == 3 && parts[0] == "var"@ && parts[1] == "tmp"@
        && "cfsrun-"@.is_prefix_of(parts[2])
}

/// Whether a path is the state directory of a container.
pub fn is_state_dir(dir: &str) -> (r: bool)
    ensures
        r == is_container_dir(dir@),
{
    let parts = path_components(dir);
    assert(texts(parts@) == components(dir@));
    if !path_is_absolute(dir) || parts.len() != 3 {
        return false;
    }
    assert(texts(parts@)[0] == parts@[0]@);
    assert(texts(parts@)[1] == parts@[1]@);
    assert(texts(parts@)[2] == parts@[2]@);
    same_text(parts[0].as_str(), "var") && same_text(parts[1].as_str(), "tmp") && starts_with(
        parts[2].as_str(),
        "cfsrun-",
    )
}

/// What comes first: the root file system is detached, and pasta is ended.
pub open spec fn first_steps(dir: Seq<char>, pasta_pid: Option<i32>) -> Seq<CleanupStepView> {
    let unmount = seq![CleanupStepView::Unmount(joined(dir, "bundle/rootfs"@))];
    match pasta_pid {
        Some(pid) => unmount.push(CleanupStepView::Terminate(pid as int)),
        None => unmount,
    }
}

/// What the network namespace needs, where there is one.
pub open spec fn netns_steps(
    netns: Seq<char>,
    id: Option<String>,
    ip: Option<String>,
) -> Seq<CleanupStepView> {
    let unmount = CleanupStepView::Unmount(netns);
    match (id, ip) {
        (Some(id), Some(ip)) => seq![
            CleanupStepView::Disconnect { netns, id: id@, ip: ip@ },
            unmount,
        ],
        _ => seq![unmount],
    }
}

/// What comes last: the network is taken down, and the state directory is removed.
pub open spec fn last_steps(
    dir: Seq<char>,
    id: Option<String>,
    ip: Option<String>,
    netns_exists: bool,
) -> Seq<CleanupStepView> {
    let network = if netns_exists {
        netns_steps(joined(dir, "bundle/netns"@), id, ip)
    } else {
        seq![]
    };
    network + seq![
        CleanupStepView::Unmount(joined(dir, "bundle"@)),
        CleanupStepView::RemoveDir(dir),
    ]
}

/// The first part of the cleanup. Only the state directory of a container is cleaned up; where
/// none is named there is nothing to do.
pub open spec fn cleanup_begin_value(args: CleanupArgs) -> Result<
    Seq<CleanupStepView>,
    RunErrorView,
> {
    match args.container_dir {
        None => Ok(seq![]),
        Some(dir) => if is_container_dir(dir@) {
            Ok(first_steps(dir@, args.pasta_pid))
        } else {
            Err(RunErrorView::ForeignContainerDir)
        },
    }
}

/// The rest of the cleanup. It depends on whether the container has a network namespace.
pub open spec fn cleanup_end_value(args: CleanupArgs, netns_exists: bool) -> Result<
    Seq<CleanupStepView>,
    RunErrorView,
> {
    match args.container_dir {
        None => Ok(seq![]),
        Some(dir) => if is_container_dir(dir@) {
            Ok(last_steps(dir@, args.container_id, args.container_ip, netns_exists))
        } else {
            Err(RunErrorView::ForeignContainerDir)
        },
    }
}

/// A list of steps, or why there is none.
pub open spec fn steps_seen(r: Result<Vec<CleanupStep>, RunError>) -> Result<
    Seq<CleanupStepView>,
    RunErrorView,
> {
    match r {
        Ok(steps) => Ok(views(steps@)),
        Err(e) => Err(e@),
    }
}

/// The first part of the cleanup.
pub fn cleanup_begin(args: &CleanupArgs) -> (r: Result<Vec<CleanupStep>, RunError>)
    ensures
        steps_seen(r) == cleanup_begin_value(*args),
{
    let mut steps: Vec<CleanupStep> = Vec::new();
    if let Some(dir) = &args.container_dir {
        if !is_state_dir(dir.as_str()) {
            return Err(RunError::ForeignContainerDir);
        }
        steps.push(CleanupStep::Unmount(join_path(dir.as_str(), "bundle/rootfs")));
        if let Some(pid) = args.pasta_pid {
            steps.push(CleanupStep::Terminate(pid));
        }
        assert(views(steps@) =~= first_steps(dir@, args.pasta_pid));
    }
    assert(args.container_dir is None ==> views(steps@) =~= seq![]);
    Ok(steps)
}

/// Where the network namespace of the container is found, if it has one.
pub fn netns_place(args: &CleanupArgs) -> (r: Option<String>)
    ensures
        match r {
            Some(path) => args.container_dir matches Some(dir) && path@ == joined(
                dir@,
                "bundle/netns"@,
            ),
            None => args.container_dir is None,
        },
{
    match &args.container_dir {
        Some(dir) => Some(join_path(dir.as_str(), "bundle/netns")),
        None => None,
    }
}

/// The rest of the cleanup.
pub fn cleanup_end(args: &CleanupArgs, netns_exists: bool) -> (r: Result<
    Vec<CleanupStep>,
    RunError,
>)
    ensures
        steps_seen(r) == cleanup_end_value(*args, netns_exists),
{
    let mut steps: Vec<CleanupStep> = Vec::new();
    if let Some(dir) = &args.container_dir {
        if !is_state_dir(dir.as_str()) {
            return Err(RunError::ForeignContainerDir);
        }
        if netns_exists {
            let netns = join_path(dir.as_str(), "bundle/netns");
            if let Some(id) = &args.container_id {
                if let Some(ip) = &args.container_ip {
                    steps.push(
                        CleanupStep::Disconnect {
                            netns: netns.clone(),
                            id: id.clone(),
                            ip: ip.clone(),
                        },
                    );
                }
            }
            steps.push(CleanupStep::Unmount(netns));
        }
        steps.push(CleanupStep::Unmount(join_path(dir.as_str(), "bundle")));
        steps.push(CleanupStep::RemoveDir(dir.clone()));
        assert(views(steps@) =~= last_steps(
            dir@,
            args.container_id,
            args.container_ip,
            netns_exists,
        ));
    }
    assert(args.container_dir is None ==> views(steps@) =~= seq![]);
    Ok(steps)
}

// ---------------------------------------------------------------------------------------
// Laws

/// Whether a step touches only what lies in a directory.
pub open spec fn stays_in(dir: Seq<char>, step: CleanupStepView) -> bool {
    match step {
        CleanupStepView::Unmount(path) => is_absolute(path) && components(dir).is_prefix_of(
            components(path),
        ),
        CleanupStepView::Terminate(_) => true,
        CleanupStepView::Disconnect { netns, .. } => is_absolute(netns) && components(
            dir,
        ).is_prefix_of(components(netns)),
        CleanupStepView::RemoveDir(path) => path == dir,
    }
}

proof fn lemma_below_bundle(dir: Seq<char>, name: Seq<char>, below: Seq<char>)
    requires
        is_absolute(dir),
        is_named(name),
        !name.contains('/'),
        below == "bundle/"@ + name,
    ensures
        is_absolute(joined(dir, below)),
        components(joined(dir, below)) == components(dir).push("bundle"@).push(name),
{
    reveal_strlit("bundle/");
    reveal_strlit("bundle");
    reveal_strlit(".");
    reveal_strlit("/");
    law_join_adds_a_component(dir, "bundle"@);
    let bundle = joined(dir, "bundle"@);
    assert(bundle.last() == 'e');
    law_join_adds_a_component(bundle, name);
    assert(!is_absolute(name)) by {
        if name[0] == '/' {
            assert(name.contains('/'));
        }
    }
    assert("bundle/"@ =~= "bundle"@ + "/"@);
    assert(joined(dir, below) =~= joined(bundle, name));
}

/// Law: the cleanup removes the state directory that it was given and touches no other place.
pub proof fn law_cleanup_stays_inside(args: CleanupArgs, netns_exists: bool)
    requires
        args.container_dir is Some,
    ensures
        cleanup_begin_value(args) matches Ok(steps) ==> forall|i: int|
            0 <= i < steps.len() ==> stays_in(args.container_dir->0@, #[trigger] steps[i]),
        cleanup_end_value(args, netns_exists) matches Ok(steps) ==> {
            &&& forall|i: int|
                0 <= i < steps.len() ==> stays_in(args.container_dir->0@, #[trigger] steps[i])
            &&& steps.last() == CleanupStepView::RemoveDir(args.container_dir->0@)
        },
{
    let dir = args.container_dir->0@;
    if is_container_dir(dir) {
        reveal_strlit("bundle/");
        reveal_strlit("bundle");
        reveal_strlit("bundle/rootfs");
        reveal_strlit("bundle/netns");
        reveal_strlit("rootfs");
        reveal_strlit("netns");
        reveal_strlit(".");
        assert("bundle/rootfs"@ =~= "bundle/"@ + "rootfs"@);
        assert("bundle/netns"@ =~= "bundle/"@ + "netns"@);
        lemma_below_bundle(dir, "rootfs"@, "bundle/rootfs"@);
        lemma_below_bundle(dir, "netns"@, "bundle/netns"@);
        law_join_adds_a_component(dir, "bundle"@);
        let parts = components(dir);
        assert(parts.is_prefix_of(parts.push("bundle"@)));
        assert(parts.is_prefix_of(parts.push("bundle"@).push("rootfs"@)));
        assert(parts.is_prefix_of(parts.push("bundle"@).push("netns"@)));
    }
}

/// Law: nothing is done for a directory that is not the state directory of a container.
pub proof fn law_foreign_directories_are_refused(args: CleanupArgs, netns_exists: bool)
    ensures
        cleanup_begin_value(args) is Err <==> (args.container_dir matches Some(dir)
            && !is_container_dir(dir@)),
        cleanup_end_value(args, netns_exists) is Err <==> cleanup_begin_value(args) is Err,
{
}

/// Law: of the directories directly under `/var/tmp` those whose name starts with `cfsrun-` are
/// cleaned up, and no other; and none elsewhere is.
pub proof fn law_which_directories_are_cleaned_up(dir: Seq<char>)
    ensures
        is_container_dir(dir) <==> dir.len() > 0 && dir[0] == '/' && components(dir).len() == 3
            && components(dir)[0] == seq!['v', 'a', 'r'] && components(dir)[1] == seq![
            't',
            'm',
            'p',
        ] && seq!['c', 'f', 's', 'r', 'u', 'n', '-'].is_prefix_of(components(dir)[2]),
{
    reveal_strlit("var");
    reveal_strlit("tmp");
    reveal_strlit("cfsrun-");
    assert("var"@ =~= seq!['v', 'a', 'r']);
    assert("tmp"@ =~= seq!['t', 'm', 'p']);
    assert("cfsrun-"@ =~= seq!['c', 'f', 's', 'r', 'u', 'n', '-']);
}

} // verus!
