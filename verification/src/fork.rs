//! Who a process is after a fork, and what it does.
use vstd::prelude::*;

use crate::network::{ended_by_itself, exit_code, law_wait_status};

verus! {

/// Who a process is after a fork.
#[derive(Clone, Copy, Debug, PartialEq, Eq, Structural)]
pub enum ForkRole {
    /// There was no fork.
    Failed,
    /// The new process.
    Child,
    /// The process that was there before, which knows the new one.
    Parent(i32),
}

/// Who a process is, by what the fork returned.
pub open spec fn fork_role_value(ret: i32) -> ForkRole {
    if ret == -1 {
        ForkRole::Failed
    } else if ret == 0 {
        ForkRole::Child
    } else {
        ForkRole::Parent(ret)
    }
}

/// Who a process is, by what the fork returned.
pub fn fork_role(ret: i32) -> (r: ForkRole)
    ensures
        r == fork_role_value(ret),
{
    if ret == -1 {
        ForkRole::Failed
    } else if ret == 0 {
        ForkRole::Child
    } else {
        ForkRole::Parent(ret)
    }
}

/// What a process does next.
#[derive(Clone, Copy, Debug, PartialEq, Eq, Structural)]
pub enum ForkAction {
    /// Report that no process could be made.
    Fail,
    /// Fork once more.
    ForkAgain,
    /// End with a code.
    Exit(i32),
    /// Become the server.
    Serve,
    /// Wait for a process.
    Wait(i32),
}

/// What the processes do that start a server. It is the child of a child that ends at once, so
/// that nobody waits for the server.
pub open spec fn server_action_value(first: i32, second: Option<i32>) -> ForkAction {
    match fork_role_value(first) {
        ForkRole::Failed => ForkAction::Fail,
        ForkRole::Parent(pid) => ForkAction::Wait(pid),
        ForkRole::Child => match second {
            None => ForkAction::ForkAgain,
            Some(ret) => match fork_role_value(ret) {
                ForkRole::Failed => ForkAction::Exit(1),
                ForkRole::Child => ForkAction::Serve,
                ForkRole::Parent(_) => ForkAction::Exit(0),
            },
        },
    }
}

/// What a process does next that starts a server, by what its forks returned.
pub fn server_action(first: i32, second: Option<i32>) -> (r: ForkAction)
    ensures
        r == server_action_value(first, second),
{
    match fork_role(first) {
        ForkRole::Failed => ForkAction::Fail,
        ForkRole::Parent(pid) => ForkAction::Wait(pid),
        ForkRole::Child => match second {
            None => ForkAction::ForkAgain,
            Some(ret) => match fork_role(ret) {
                ForkRole::Failed => ForkAction::Exit(1),
                ForkRole::Child => ForkAction::Serve,
                ForkRole::Parent(_) => ForkAction::Exit(0),
            },
        },
    }
}

/// Law: only the child of the child becomes the server.
pub proof fn law_only_the_grandchild_serves(first: i32, second: Option<i32>)
    ensures
        server_action_value(first, second) == ForkAction::Serve <==> first == 0 && second
            == Some(0i32),
{
}

/// The code with which the child ends that makes a network namespace, by what the two system
/// calls returned: leaving the namespace of the parent, and mounting the new one. The second
/// is not made where the first one failed.
pub fn netns_exit_code(unshare: i32, mount: Option<i32>) -> (r: i32)
    ensures
        r == if unshare == 0 && mount == Some(0i32) {
            0i32
        } else {
            1i32
        },
{
    if unshare != 0 {
        return 1;
    }
    match mount {
        Some(ret) => if ret == 0 {
            0
        } else {
            1
        },
        None => 1,
    }
}

/// Law: the parent learns what came of the child: the code that the child ends with is zero
/// exactly where the status that the parent is handed is one of success.
pub proof fn law_parent_learns_of_the_child(code: i32)
    requires
        0 <= code < 256,
    ensures
        ended_by_itself(code << 8) && exit_code(code << 8) == 0 <==> code == 0,
{
    law_wait_status(code);
}

/// Law: a fork fails exactly with -1 and gives the child exactly zero; to the parent it gives the
/// child.
pub proof fn law_roles_after_a_fork(ret: i32)
    ensures
        fork_role_value(ret) == ForkRole::Failed <==> ret == -1,
        fork_role_value(ret) == ForkRole::Child <==> ret == 0,
        ret != -1 && ret != 0 ==> fork_role_value(ret) == ForkRole::Parent(ret),
{
}

/// Law: whoever starts a server waits for its own child and for nobody else, and reports where it
/// has none; the child forks once more and then ends, with success where there is a server.
pub proof fn law_what_each_process_does(first: i32, second: i32)
    ensures
        first == -1 ==> server_action_value(first, Some(second)) == ForkAction::Fail
            && server_action_value(first, None) == ForkAction::Fail,
        first != -1 && first != 0 ==> server_action_value(first, Some(second)) == ForkAction::Wait(
            first,
        ) && server_action_value(first, None) == ForkAction::Wait(first),
        server_action_value(0, None) == ForkAction::ForkAgain,
        second == -1 ==> server_action_value(0, Some(second)) == ForkAction::Exit(1),
        second == 0 ==> server_action_value(0, Some(second)) == ForkAction::Serve,
        second != -1 && second != 0 ==> server_action_value(0, Some(second)) == ForkAction::Exit(0),
{
}

} // verus!
