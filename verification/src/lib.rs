//! The decisions of a minimal container runner, verified.
pub mod capability;
pub mod cleanup;
pub mod cli;
pub mod device;
pub mod error;
pub mod etc;
pub mod fork;
pub mod fuse;
pub mod image;
pub mod invocation;
pub mod mount;
pub mod network;
pub mod number;
pub mod options;
pub mod path;
pub mod process;
pub mod rootfs;
pub mod run;
pub mod runtime;
pub mod security;
pub mod settings;
pub mod text;
