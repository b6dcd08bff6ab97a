//! Why a container is not started, or not cleaned up.
use vstd::prelude::*;
use vstd::string::*;

use crate::number::write_signed_decimal;
use crate::number::signed_decimal;
use crate::text::{concat2, concat3};

verus! {

/// The characters of an optional string.
pub open spec fn opt_text(o: Option<String>) -> Option<Seq<char>> {
    match o {
        Some(s) => Some(s@),
        None => None,
    }
}

/// An optional string once more.
pub fn copy_option(o: &Option<String>) -> (r: Option<String>)
    ensures
        opt_text(r) == opt_text(*o),
{
    match o {
        Some(s) => Some(s.clone()),
        None => None,
    }
}

/// A result by the views of its two sides.
pub open spec fn seen<T: View, E: View>(r: Result<T, E>) -> Result<T::V, E::V> {
    match r {
        Ok(v) => Ok(v@),
        Err(e) => Err(e@),
    }
}

/// Why a container is not started, or not cleaned up.
#[derive(Debug)]
pub enum RunError {
    /// A name that no capability has.
    UnknownCapability(String),
    /// Neither the image nor the command line names a command.
    NoCommand,
    /// An init process is wanted, and none is installed.
    NoInit,
    /// The image is to bring the seccomp profile, and brings none.
    NoSeccompProfile,
    /// A security option whose key means nothing.
    UnsupportedSecurityOpt(String),
    /// Pasta only connects containers of ordinary users.
    PastaNeedsRootless,
    /// Only root can set up a bridge.
    BridgeNeedsRootful,
    /// A path that names neither a character nor a block device.
    NotADevice(String),
    /// What pasta said when it failed.
    PastaFailed(String),
    /// The file in which pasta leaves its process number holds none.
    PastaPid,
    /// The child that was to make the network namespace failed.
    NetnsFailed,
    /// A directory that is not the state directory of a container.
    ForeignContainerDir,
    /// A file descriptor that does not stand for the FUSE device, and what it stands for.
    NotFuse(i32, String),
    /// A root file system that is not a directory.
    RootfsNotDirectory(String),
    /// Neither an image nor a root file system was named.
    NoImage,
    /// The image that was found holds no file system that could be mounted.
    NoFileSystem,
    /// A text that is not the digest of a manifest.
    BadDigest,
}

/// The model of a [`RunError`].
pub enum RunErrorView {
    UnknownCapability(Seq<char>),
    NoCommand,
    NoInit,
    NoSeccompProfile,
    UnsupportedSecurityOpt(Seq<char>),
    PastaNeedsRootless,
    BridgeNeedsRootful,
    NotADevice(Seq<char>),
    PastaFailed(Seq<char>),
    PastaPid,
    NetnsFailed,
    ForeignContainerDir,
    NotFuse(int, Seq<char>),
    RootfsNotDirectory(Seq<char>),
    NoImage,
    NoFileSystem,
    BadDigest,
}

impl View for RunError {
    type V = RunErrorView;

    open spec fn view(&self) -> RunErrorView {
        match *self {
            RunError::UnknownCapability(s) => RunErrorView::UnknownCapability(s@),
            RunError::NoCommand => RunErrorView::NoCommand,
            RunError::NoInit => RunErrorView::NoInit,
            RunError::NoSeccompProfile => RunErrorView::NoSeccompProfile,
            RunError::UnsupportedSecurityOpt(s) => RunErrorView::UnsupportedSecurityOpt(s@),
            RunError::PastaNeedsRootless => RunErrorView::PastaNeedsRootless,
            RunError::BridgeNeedsRootful => RunErrorView::BridgeNeedsRootful,
            RunError::NotADevice(s) => RunErrorView::NotADevice(s@),
            RunError::PastaFailed(s) => RunErrorView::PastaFailed(s@),
            RunError::PastaPid => RunErrorView::PastaPid,
            RunError::NetnsFailed => RunErrorView::NetnsFailed,
            RunError::ForeignContainerDir => RunErrorView::ForeignContainerDir,
            RunError::NotFuse(fd, s) => RunErrorView::NotFuse(fd as int, s@),
            RunError::RootfsNotDirectory(s) => RunErrorView::RootfsNotDirectory(s@),
            RunError::NoImage => RunErrorView::NoImage,
            RunError::NoFileSystem => RunErrorView::NoFileSystem,
            RunError::BadDigest => RunErrorView::BadDigest,
        }
    }
}

/// What the user is told.
pub open spec fn error_text(e: RunErrorView) -> Seq<char> {
    match e {
        RunErrorView::UnknownCapability(s) => "Unknown capability: "@ + s,
        RunErrorView::NoCommand =>
            "No entrypoint or cmd in image config and no command specified"@,
        RunErrorView::NoInit =>
            "catatonit is required (use --no-init to disable): catatonit not found"@,
        RunErrorView::NoSeccompProfile =>
            "No seccomp policy defined by image (missing io.containers.seccomp.profile label)"@,
        RunErrorView::UnsupportedSecurityOpt(s) => "Unsupported --security-opt: "@ + s,
        RunErrorView::PastaNeedsRootless => "--network pasta is only supported in rootless mode"@,
        RunErrorView::BridgeNeedsRootful => "--network bridge is only supported in rootful mode"@,
        RunErrorView::NotADevice(s) => s + " is not a device node"@,
        RunErrorView::PastaFailed(s) => "pasta failed: "@ + s,
        RunErrorView::PastaPid => "Parsing pasta PID"@,
        RunErrorView::NetnsFailed => "Failed to create network namespace"@,
        RunErrorView::ForeignContainerDir => "--container-dir must be under /var/tmp/cfsrun-*"@,
        RunErrorView::NotFuse(fd, s) => "--fuse-fd "@ + signed_decimal(fd)
            + " does not point to /dev/fuse (got "@ + s + ")"@,
        RunErrorView::RootfsNotDirectory(s) => "--rootfs path '"@ + s + "' is not a directory"@,
        RunErrorView::NoImage => "No image specified"@,
        RunErrorView::NoFileSystem => "No composefs image"@,
        RunErrorView::BadDigest => "Parsing manifest digest"@,
    }
}

impl RunError {
    /// What the user is told.
    pub fn message(&self) -> (m: String)
        ensures
            m@ == error_text(self@),
    {
        match self {
            RunError::UnknownCapability(s) => concat2("Unknown capability: ", s.as_str()),
            RunError::NoCommand =>
                "No entrypoint or cmd in image config and no command specified".to_owned(),
            RunError::NoInit =>
                "catatonit is required (use --no-init to disable): catatonit not found".to_owned(),
            RunError::NoSeccompProfile =>
                "No seccomp policy defined by image (missing io.containers.seccomp.profile label)".to_owned(),
            RunError::UnsupportedSecurityOpt(s) => concat2(
                "Unsupported --security-opt: ",
                s.as_str(),
            ),
            RunError::PastaNeedsRootless =>
                "--network pasta is only supported in rootless mode".to_owned(),
            RunError::BridgeNeedsRootful =>
                "--network bridge is only supported in rootful mode".to_owned(),
            RunError::NotADevice(s) => concat2(s.as_str(), " is not a device node"),
            RunError::PastaFailed(s) => concat2("pasta failed: ", s.as_str()),
            RunError::PastaPid => "Parsing pasta PID".to_owned(),
            RunError::NetnsFailed => "Failed to create network namespace".to_owned(),
            RunError::ForeignContainerDir =>
                "--container-dir must be under /var/tmp/cfsrun-*".to_owned(),
            RunError::NotFuse(fd, s) => {
                let mut m = concat3(
                    "--fuse-fd ",
                    write_signed_decimal(*fd).as_str(),
                    " does not point to /dev/fuse (got ",
                );
                m.append(s.as_str());
                m.append(")");
                m
            },
            RunError::RootfsNotDirectory(s) => concat3(
                "--rootfs path '",
                s.as_str(),
                "' is not a directory",
            ),
            RunError::NoImage => "No image specified".to_owned(),
            RunError::NoFileSystem => "No composefs image".to_owned(),
            RunError::BadDigest => "Parsing manifest digest".to_owned(),
        }
    }
}

/// Law: a message that is about something names it in full, where the reader expects it.
pub proof fn law_messages_name_what_they_are_about(s: Seq<char>, fd: int)
    ensures
        error_text(RunErrorView::UnknownCapability(s)) == "Unknown capability: "@ + s,
        error_text(RunErrorView::UnsupportedSecurityOpt(s)) == "Unsupported --security-opt: "@ + s,
        error_text(RunErrorView::NotADevice(s)) == s + " is not a device node"@,
        error_text(RunErrorView::PastaFailed(s)) == "pasta failed: "@ + s,
        error_text(RunErrorView::NotFuse(fd, s)) == "--fuse-fd "@ + signed_decimal(fd)
            + " does not point to /dev/fuse (got "@ + s + ")"@,
        error_text(RunErrorView::RootfsNotDirectory(s)) == "--rootfs path '"@ + s
            + "' is not a directory"@,
{
}

} // verus!
