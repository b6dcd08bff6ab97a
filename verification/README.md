# composefs_run

A minimal container runner that runs OCI containers directly from composefs repositories
using crun, without a daemon and without persistent state. Most of its command line is that of
`podman run`.

- Root has images mounted by the kernel (erofs and overlayfs) and connects containers to a
  bridge. An ordinary user has images served through FUSE and connects containers with pasta.
- Changes to the root file system are kept in the state directory of the container under
  `/var/tmp`, and go away with it, unless `--overlay-dir` names another place.
- An init process (catatonit) runs in the container by default.

## Layout

- `src/` is the library. It decides what options mean, what a container may do, what is mounted
  where, what the runtime is told, in which order a container is started, and what is done when
  it has stopped. Every function states what it returns, and Verus proves it.
  Functions named `law_…` prove what holds of several of them together.
- `app/` is the program. It reads the command line, performs the steps that the library decides
  on, and hands the outcomes back. It also sets the modes of the directories that it makes, and
  removes the state directory where a start fails.
- `tests/` runs the library on examples.

What the library takes from other crates, it takes through a few functions whose contracts are
believed, not proved. Each of them names the function it calls: the names of capabilities, the
default mounts, namespaces and hidden paths of `oci_spec`, the digests of `composefs_oci`, the
path of the system's repository of `composefs`, and the wait status of `libc`. The same goes for
`String::push` of the standard library.
