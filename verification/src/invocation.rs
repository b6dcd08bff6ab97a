//! How the runner is called, and the names that it gives.
use vstd::prelude::*;
use vstd::string::*;

use crate::cleanup::is_container_dir;
use crate::error::opt_text;
use crate::error::{RunError, RunErrorView};
use crate::fuse::serve_arguments_value;
use crate::number::{decimal, digits_value, is_digit, law_decimal_reads_back};
use crate::number::write_decimal;
use crate::path::{
    absolute, components, is_absolute, is_named, law_absolute_has_its_components,
};
use crate::runtime::poststop_value;
use crate::text::{cuts_cleanly, law_ascii_cuts_cleanly};
use crate::text::{concat2, same_text};

verus! {

/// What the runner is called for.
#[derive(Clone, Copy, Debug, PartialEq, Eq, Structural)]
pub enum Invocation {
    /// To start a container.
    Run,
    /// To clean up behind one.
    Cleanup,
    /// To serve an image.
    FuseServe,
}

/// What the runner is called for, by its first argument.
pub open spec fn invocation_value(first: Option<Seq<char>>) -> Invocation {
    if first == Some("--internal-cleanup"@) {
        Invocation::Cleanup
    } else if first == Some("--internal-fuse-serve"@) {
        Invocation::FuseServe
    } else {
        Invocation::Run
    }
}

/// What the runner is called for, by its first argument.
pub fn invocation(first: &Option<String>) -> (r: Invocation)
    ensures
        r == invocation_value(opt_text(*first)),
{
    match first {
        Some(arg) => if same_text(arg.as_str(), "--internal-cleanup") {
            Invocation::Cleanup
        } else if same_text(arg.as_str(), "--internal-fuse-serve") {
            Invocation::FuseServe
        } else {
            Invocation::Run
        },
        None => Invocation::Run,
    }
}

/// Law: the runner that a container calls when it has stopped cleans up, and the one that is
/// called to serve an image does so.
pub proof fn law_the_runner_calls_itself(
    container_dir: Seq<char>,
    container_id: Seq<char>,
    container_ip: Option<Seq<char>>,
    pasta_pid: Option<i32>,
    repo: Seq<char>,
    image: Seq<char>,
    fuse_fd: int,
)
    ensures
        invocation_value(
            Some(
                poststop_value(container_dir, container_id, container_ip, pasta_pid)[1],
            ),
        ) == Invocation::Cleanup,
        invocation_value(Some(serve_arguments_value(repo, image, fuse_fd)[0]))
            == Invocation::FuseServe,
{
    reveal_strlit("--internal-cleanup");
    reveal_strlit("--internal-fuse-serve");
    assert("--internal-cleanup"@.len() != "--internal-fuse-serve"@.len());
}

/// The name of the container that a process starts.
pub open spec fn container_id_value(pid: nat) -> Seq<char> {
    "composefs-"@ + decimal(pid)
}

/// The name of the container that a process starts.
pub fn container_id(pid: u32) -> (r: String)
    ensures
        r@ == container_id_value(pid as nat),
{
    concat2("composefs-", write_decimal(pid as u64).as_str())
}

/// The state directory of a container.
pub open spec fn container_dir_value(id: Seq<char>) -> Seq<char> {
    "/var/tmp/cfsrun-"@ + id
}

/// The state directory of a container.
pub fn container_dir(id: &str) -> (r: String)
    ensures
        r@ == container_dir_value(id@),
{
    concat2("/var/tmp/cfsrun-", id)
}

/// Where changes to the root file system are kept: where the user says, and else in the state
/// directory.
pub open spec fn overlay_dir_value(
    given: Option<Seq<char>>,
    container_dir: Seq<char>,
) -> Seq<char> {
    match given {
        Some(path) => path,
        None => container_dir,
    }
}

/// Where changes to the root file system are kept.
pub fn overlay_dir(given: &Option<String>, container_dir: &str) -> (r: String)
    ensures
        r@ == overlay_dir_value(opt_text(*given), container_dir@),
{
    match given {
        Some(path) => path.clone(),
        None => container_dir.to_owned(),
    }
}

/// `composefs::repository::system_path`, the repository of the whole system, as text.
///
/// The clause says which path it is.
#[verifier::external_body]
fn system_repository() -> (r: String)
    ensures
        r@ == "/sysroot/composefs"@,
{
    composefs::repository::system_path().display().to_string()
}

/// The repository that is used, unless it is the user's own: the one that was named, and for
/// root the one of the system.
pub open spec fn repository_value(given: Option<Seq<char>>, rootless: bool) -> Option<Seq<char>> {
    match given {
        Some(path) => Some(path),
        None => if rootless {
            None
        } else {
            Some("/sysroot/composefs"@)
        },
    }
}

/// The repository that is used, unless it is the user's own.
pub fn repository(given: &Option<String>, rootless: bool) -> (r: Option<String>)
    ensures
        opt_text(r) == repository_value(opt_text(*given), rootless),
{
    match given {
        Some(path) => Some(path.clone()),
        None => if rootless {
            None
        } else {
            Some(system_repository())
        },
    }
}

/// Whether a path of the host can be the root file system.
pub fn check_rootfs(path: &str, is_dir: bool) -> (r: Result<(), RunError>)
    ensures
        r is Ok <==> is_dir,
        r matches Err(e) ==> e@ == RunErrorView::RootfsNotDirectory(path@),
{
    if is_dir {
        Ok(())
    } else {
        Err(RunError::RootfsNotDirectory(path.to_owned()))
    }
}

// ---------------------------------------------------------------------------------------
// Laws

proof fn lemma_container_dir_components(id: Seq<char>)
    requires
        !id.contains('/'),
    ensures
        is_absolute(container_dir_value(id)),
        components(container_dir_value(id)) == seq!["var"@, "tmp"@, "cfsrun-"@ + id],
{
    reveal_strlit("/var/tmp/cfsrun-");
    reveal_strlit("cfsrun-");
    reveal_strlit("var");
    reveal_strlit("tmp");
    reveal_strlit(".");
    let name = "cfsrun-"@ + id;
    let names = seq!["var"@, "tmp"@, name];
    assert forall|i: int| 0 <= i < name.len() implies #[trigger] name[i] != '/' by {
        if i >= 7 {
            assert(name[i] == id[i - 7]);
            assert(id.contains(id[i - 7]));
        }
    }
    assert(!name.contains('/'));
    assert(name.len() > 1);
    assert forall|i: int| 0 <= i < names.len() implies is_named(#[trigger] names[i])
        && !names[i].contains('/') by {
        assert("."@.len() == 1);
        assert(!"var"@.contains('/'));
        assert(!"tmp"@.contains('/'));
        assert(names[0] == "var"@ && names[1] == "tmp"@ && names[2] == name);
    }
    law_absolute_has_its_components(names);
    reveal_with_fuel(absolute, 4);
    assert(names.drop_last() =~= seq!["var"@, "tmp"@]);
    assert(names.drop_last().drop_last() =~= seq!["var"@]);
    assert(names.drop_last().drop_last().drop_last() =~= seq![]);
    assert(absolute(names) =~= container_dir_value(id));
}

/// Law: the state directory of a container is one that is cleaned up, whatever its name is, as
/// long as it holds no slash.
pub proof fn law_directories_are_cleaned_up(id: Seq<char>)
    requires
        !id.contains('/'),
    ensures
        is_container_dir(container_dir_value(id)),
{
    reveal_strlit("cfsrun-");
    lemma_container_dir_components(id);
    let name = "cfsrun-"@ + id;
    assert("cfsrun-"@ =~= name.subrange(0, 7));
}

/// Law: the state directory of a container that the runner starts is one that it cleans up.
pub proof fn law_own_directory_is_cleaned_up(pid: nat)
    ensures
        is_container_dir(container_dir_value(container_id_value(pid))),
{
    reveal_strlit("composefs-");
    law_decimal_reads_back(pid);
    let id = container_id_value(pid);
    let digits = decimal(pid);
    assert forall|i: int| 0 <= i < id.len() implies #[trigger] id[i] != '/' by {
        if i >= 10 {
            assert(id[i] == digits[i - 10]);
            assert(is_digit(digits[i - 10]));
        }
    }
    law_directories_are_cleaned_up(id);
}

/// Law: the name of a container can be cut behind any number of bytes, as is done for its host
/// name.
pub proof fn law_container_id_cuts_cleanly(pid: nat, n: nat)
    ensures
        cuts_cleanly(container_id_value(pid), n),
{
    reveal_strlit("composefs-");
    law_decimal_reads_back(pid);
    let id = container_id_value(pid);
    assert forall|i: int| 0 <= i < id.len() implies #[trigger] id[i] <= '\u{7f}' by {
        let digits = decimal(pid);
        if i >= 10 {
            assert(id[i] == digits[i - 10]);
            assert(is_digit(digits[i - 10]));
        }
    }
    law_ascii_cuts_cleanly(id, n);
}

/// Law: the runner cleans up or serves where its first argument says so, and nowhere else; in every
/// other way it is called it starts a container.
pub proof fn law_only_two_words_are_special(first: Option<Seq<char>>)
    ensures
        invocation_value(first) == Invocation::Cleanup <==> first == Some("--internal-cleanup"@),
        invocation_value(first) == Invocation::FuseServe <==> first == Some(
            "--internal-fuse-serve"@,
        ),
{
    reveal_strlit("--internal-cleanup");
    reveal_strlit("--internal-fuse-serve");
    assert("--internal-cleanup"@.len() != "--internal-fuse-serve"@.len());
}

/// Law: two processes give their containers different names, and different names give different
/// state directories, each directly under `/var/tmp`.
pub proof fn law_containers_stay_apart(p: nat, q: nat, a: Seq<char>, b: Seq<char>)
    ensures
        container_id_value(p) == container_id_value(q) ==> p == q,
        container_dir_value(a) == container_dir_value(b) ==> a == b,
        !a.contains('/') ==> components(container_dir_value(a)) == seq![
            "var"@,
            "tmp"@,
            "cfsrun-"@ + a,
        ],
        "composefs-"@.is_prefix_of(container_id_value(p)),
        digits_value(container_id_value(p).skip(10)) == p,
{
    reveal_strlit("composefs-");
    reveal_strlit("/var/tmp/cfsrun-");
    law_decimal_reads_back(p);
    law_decimal_reads_back(q);
    let x = container_id_value(p);
    let y = container_id_value(q);
    assert(x.skip(10) =~= decimal(p));
    assert(y.skip(10) =~= decimal(q));
    assert("composefs-"@ =~= x.subrange(0, 10));
    assert(container_dir_value(a).skip(16) =~= a);
    assert(container_dir_value(b).skip(16) =~= b);
    if !a.contains('/') {
        lemma_container_dir_components(a);
    }
}

/// Law: changes are kept where the user says, and else in the state directory; the repository is
/// the one that was named, and else the system's for root and the user's own for anybody else.
pub proof fn law_places_that_are_used(given: Seq<char>, container_dir: Seq<char>)
    ensures
        overlay_dir_value(Some(given), container_dir) == given,
        overlay_dir_value(None, container_dir) == container_dir,
        repository_value(Some(given), true) == Some(given),
        repository_value(Some(given), false) == Some(given),
        repository_value(None, false) == Some("/sysroot/composefs"@),
        repository_value(None, true) is None,
{
}

} // verus!
