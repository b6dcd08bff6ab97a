//! The process that serves an image through FUSE.
use vstd::prelude::*;
use vstd::string::*;

use crate::error::{RunError, RunErrorView};
use crate::number::{
    decimal, is_digit, law_decimal_reads_back, law_signed_numbers_that_fit_are_read, parsed_i32,
    signed_decimal,
};
use crate::number::write_signed_decimal;
use crate::path::paths_equal;
use crate::path::{
    absolute, components, is_absolute, is_named, law_absolute_has_its_components, same_path,
};
use crate::text::concat2;
use crate::text::texts;

verus! {

/// The arguments with which the runner is called to serve an image.
pub open spec fn serve_arguments_value(repo: Seq<char>, image: Seq<char>, fuse_fd: int) -> Seq<
    Seq<char>,
> {
    seq![
        "--internal-fuse-serve"@,
        "--repo"@,
        repo,
        "--image"@,
        image,
        "--fuse-fd"@,
        signed_decimal(fuse_fd),
    ]
}

/// The arguments with which the runner is called to serve an image.
pub fn serve_arguments(repo: &str, image: &str, fuse_fd: i32) -> (r: Vec<String>)
    ensures
        texts(r@) == serve_arguments_value(repo@, image@, fuse_fd as int),
{
    let r: Vec<String> = vec![
        "--internal-fuse-serve".to_owned(),
        "--repo".to_owned(),
        repo.to_owned(),
        "--image".to_owned(),
        image.to_owned(),
        "--fuse-fd".to_owned(),
        write_signed_decimal(fuse_fd),
    ];
    assert(texts(r@) =~= serve_arguments_value(repo@, image@, fuse_fd as int));
    r
}

/// The link that says what a file descriptor of this process stands for.
pub open spec fn fd_link_value(fd: int) -> Seq<char> {
    "/proc/self/fd/"@ + signed_decimal(fd)
}

/// The link that says what a file descriptor of this process stands for.
pub fn fd_link(fd: i32) -> (r: String)
    ensures
        r@ == fd_link_value(fd as int),
{
    concat2("/proc/self/fd/", write_signed_decimal(fd).as_str())
}

/// Whether a file descriptor stands for the FUSE device, by where its link points.
pub fn check_fuse_fd(fd: i32, link: &str) -> (r: Result<(), RunError>)
    ensures
        r is Ok <==> same_path(link@, "/dev/fuse"@),
        r matches Err(e) ==> e@ == RunErrorView::NotFuse(fd as int, link@),
{
    if paths_equal(link, "/dev/fuse") {
        Ok(())
    } else {
        Err(RunError::NotFuse(fd, link.to_owned()))
    }
}

/// Law: the server is called with its mode and told the repository, the image and the descriptor
/// that it is to serve, each behind its option; the descriptor is read back from its text.
pub proof fn law_the_server_is_told_what_to_serve(repo: Seq<char>, image: Seq<char>, fuse_fd: i32)
    ensures
        ({
            let args = serve_arguments_value(repo, image, fuse_fd as int);
            &&& args.len() == 7
            &&& args[0] == "--internal-fuse-serve"@
            &&& args[1] == "--repo"@ && args[2] == repo
            &&& args[3] == "--image"@ && args[4] == image
            &&& args[5] == "--fuse-fd"@ && parsed_i32(args[6]) == Some(fuse_fd)
        }),
{
    law_signed_numbers_that_fit_are_read(fuse_fd as int);
}

/// Law: the link of a descriptor lies among the descriptors of this process, under its number.
pub proof fn law_link_of_a_descriptor(fd: i32)
    requires
        fd >= 0,
    ensures
        is_absolute(fd_link_value(fd as int)),
        components(fd_link_value(fd as int)) == seq![
            "proc"@,
            "self"@,
            "fd"@,
            decimal(fd as nat),
        ],
{
    reveal_strlit("/proc/self/fd/");
    reveal_strlit("proc");
    reveal_strlit("self");
    reveal_strlit("fd");
    reveal_strlit(".");
    law_decimal_reads_back(fd as nat);
    let n = decimal(fd as nat);
    assert forall|i: int| 0 <= i < n.len() implies #[trigger] n[i] != '/' && n[i] != '.' by {
        assert(is_digit(n[i]));
    }
    let names = seq!["proc"@, "self"@, "fd"@, n];
    assert forall|i: int| 0 <= i < names.len() implies is_named(#[trigger] names[i])
        && !names[i].contains('/') by {
        assert("."@.len() == 1 && "."@[0] == '.');
        assert(names[0] == "proc"@ && names[1] == "self"@ && names[2] == "fd"@ && names[3] == n);
        assert(!"proc"@.contains('/') && !"self"@.contains('/') && !"fd"@.contains('/'));
        assert(n[0] != '.');
    }
    law_absolute_has_its_components(names);
    reveal_with_fuel(absolute, 5);
    let three = names.drop_last();
    let two = three.drop_last();
    let one = two.drop_last();
    assert(three =~= seq!["proc"@, "self"@, "fd"@]);
    assert(two =~= seq!["proc"@, "self"@]);
    assert(one =~= seq!["proc"@]);
    assert(one.drop_last() =~= seq![]);
    assert(absolute(names) =~= fd_link_value(fd as int));
}

} // verus!
