//! The root file system of a container.
use vstd::prelude::*;
use vstd::string::*;

use crate::error::{copy_option, opt_text};
use crate::path::join_path;
use crate::path::joined;
use crate::text::views;

verus! {

/// The two directories of a writable overlay.
#[derive(Debug)]
pub struct OverlayDirs {
    /// Where changes are kept.
    pub upper: String,
    /// Where changes are prepared.
    pub work: String,
}

/// The model of [`OverlayDirs`].
#[verifier::ext_equal]
pub struct OverlayDirsView {
    pub upper: Seq<char>,
    pub work: Seq<char>,
}

impl View for OverlayDirs {
    type V = OverlayDirsView;

    open spec fn view(&self) -> OverlayDirsView {
        OverlayDirsView { upper: self.upper@, work: self.work@ }
    }
}

/// The overlay that a root file system has, if any.
pub open spec fn opt_dirs(o: Option<OverlayDirs>) -> Option<OverlayDirsView> {
    match o {
        Some(d) => Some(d@),
        None => None,
    }
}

/// How the root file system is mounted.
#[derive(Debug)]
pub enum Rootfs {
    /// A directory of the host, which the container cannot write.
    Bind { source: String },
    /// A directory of the host below a writable overlay.
    Overlay { lower: String, dirs: OverlayDirs, userxattr: bool },
    /// An image of a repository, served by a process of the user.
    Fuse { objects: String, image: Option<String>, dirs: Option<OverlayDirs> },
    /// An image of a repository, mounted by the kernel.
    Erofs { image: Option<String>, dirs: Option<OverlayDirs> },
}

/// The model of a [`Rootfs`].
#[verifier::ext_equal]
pub enum RootfsView {
    Bind { source: Seq<char> },
    Overlay { lower: Seq<char>, dirs: OverlayDirsView, userxattr: bool },
    Fuse { objects: Seq<char>, image: Option<Seq<char>>, dirs: Option<OverlayDirsView> },
    Erofs { image: Option<Seq<char>>, dirs: Option<OverlayDirsView> },
}

impl View for Rootfs {
    type V = RootfsView;

    open spec fn view(&self) -> RootfsView {
        match *self {
            Rootfs::Bind { source } => RootfsView::Bind { source: source@ },
            Rootfs::Overlay { lower, dirs, userxattr } => RootfsView::Overlay {
                lower: lower@,
                dirs: dirs@,
                userxattr,
            },
            Rootfs::Fuse { objects, image, dirs } => RootfsView::Fuse {
                objects: objects@,
                image: opt_text(image),
                dirs: opt_dirs(dirs),
            },
            Rootfs::Erofs { image, dirs } => RootfsView::Erofs {
                image: opt_text(image),
                dirs: opt_dirs(dirs),
            },
        }
    }
}

/// Where the root file system comes from.
#[derive(Debug)]
pub struct RootfsSource {
    /// A directory of the host that is used in place of an image.
    pub rootfs: Option<String>,
    pub repo_path: String,
    /// The name that the image has in the repository.
    pub image: Option<String>,
    pub overlay_dir: String,
    pub read_only: bool,
}

/// The directories of an overlay at a place.
pub open spec fn dirs_at(overlay_dir: Seq<char>) -> OverlayDirsView {
    OverlayDirsView {
        upper: joined(overlay_dir, "upper"@),
        work: joined(overlay_dir, "work"@),
    }
}

/// The overlay over an image. One that is only read needs none.
pub open spec fn image_dirs(overlay_dir: Seq<char>, read_only: bool) -> Option<OverlayDirsView> {
    if read_only {
        None
    } else {
        Some(dirs_at(overlay_dir))
    }
}

/// How the root file system is mounted. `rootless` says that an ordinary user starts the container.
pub open spec fn rootfs_value(source: RootfsSource, rootless: bool) -> RootfsView {
    match source.rootfs {
        Some(path) => if source.read_only {
            RootfsView::Bind { source: path@ }
        } else {
            RootfsView::Overlay {
                lower: path@,
                dirs: dirs_at(source.overlay_dir@),
                userxattr: rootless,
            }
        },
        None => {
            let image = opt_text(source.image);
            let dirs = image_dirs(source.overlay_dir@, source.read_only);
            if rootless {
                RootfsView::Fuse { objects: joined(source.repo_path@, "objects"@), image, dirs }
            } else {
                RootfsView::Erofs { image, dirs }
            }
        },
    }
}

fn overlay_dirs(overlay_dir: &str) -> (r: OverlayDirs)
    ensures
        r@ == dirs_at(overlay_dir@),
{
    OverlayDirs {
        upper: join_path(overlay_dir, "upper"),
        work: join_path(overlay_dir, "work"),
    }
}

/// How the root file system is mounted.
pub fn choose_rootfs(source: &RootfsSource, rootless: bool) -> (r: Rootfs)
    ensures
        r@ == rootfs_value(*source, rootless),
{
    if let Some(path) = &source.rootfs {
        return if source.read_only {
            Rootfs::Bind { source: path.clone() }
        } else {
            Rootfs::Overlay {
                lower: path.clone(),
                dirs: overlay_dirs(source.overlay_dir.as_str()),
                userxattr: rootless,
            }
        };
    }
    let dirs = if source.read_only {
        None
    } else {
        Some(overlay_dirs(source.overlay_dir.as_str()))
    };
    let image = copy_option(&source.image);
    if rootless {
        let objects = join_path(source.repo_path.as_str(), "objects");
        Rootfs::Fuse { objects, image, dirs }
    } else {
        Rootfs::Erofs { image, dirs }
    }
}

/// A setting of a file system.
#[derive(Debug)]
pub struct FsSetting {
    pub key: String,
    /// Its value; a flag has none.
    pub value: Option<String>,
}

/// The model of an [`FsSetting`].
#[verifier::ext_equal]
pub struct FsSettingView {
    pub key: Seq<char>,
    pub value: Option<Seq<char>>,
}

impl View for FsSetting {
    type V = FsSettingView;

    open spec fn view(&self) -> FsSettingView {
        FsSettingView { key: self.key@, value: opt_text(self.value) }
    }
}

impl FsSetting {
    fn copy(&self) -> (r: FsSetting)
        ensures
            r@ == self@,
    {
        FsSetting { key: self.key.clone(), value: copy_option(&self.value) }
    }
}

/// The settings of an overlay.
pub open spec fn overlay_settings_value(
    lower: Seq<char>,
    dirs: OverlayDirsView,
    userxattr: bool,
) -> Seq<FsSettingView> {
    let all = seq![
        FsSettingView { key: "lowerdir"@, value: Some(lower) },
        FsSettingView { key: "upperdir"@, value: Some(dirs.upper) },
        FsSettingView { key: "workdir"@, value: Some(dirs.work) },
    ];
    if userxattr {
        all.push(FsSettingView { key: "userxattr"@, value: None })
    } else {
        all
    }
}

fn setting(key: &str, value: &str) -> (r: FsSetting)
    ensures
        r@ == (FsSettingView { key: key@, value: Some(value@) }),
{
    FsSetting { key: key.to_owned(), value: Some(value.to_owned()) }
}

/// The settings of an overlay.
pub fn overlay_settings(lower: &str, dirs: &OverlayDirs, userxattr: bool) -> (r: Vec<FsSetting>)
    ensures
        views(r@) == overlay_settings_value(lower@, dirs@, userxattr),
{
    let mut r: Vec<FsSetting> = Vec::new();
    r.push(setting("lowerdir", lower));
    r.push(setting("upperdir", dirs.upper.as_str()));
    r.push(setting("workdir", dirs.work.as_str()));
    if userxattr {
        r.push(FsSetting { key: "userxattr".to_owned(), value: None });
    }
    assert(views(r@) =~= overlay_settings_value(lower@, dirs@, userxattr));
    r
}

// ---------------------------------------------------------------------------------------
// Mounting

/// Something that is done to mount the root file system.
#[derive(Debug)]
pub enum MountStep {
    /// Bind a directory of the host to a place.
    Bind { source: String, target: String },
    /// Make what is mounted at a place read-only.
    RemountReadOnly { target: String },
    /// Make a directory, unless it is there already.
    MakeDir { path: String },
    /// Begin a new overlay.
    OpenOverlay,
    /// Set something on the overlay.
    Configure(FsSetting),
    /// Make a mount of the overlay.
    CreateOverlay,
    /// Open the FUSE device and make a mount of it.
    OpenFuse,
    /// Start the process that serves an image to the FUSE device.
    Serve { repo: String, image: String },
    /// Open the objects of a repository.
    OpenObjects { path: String },
    /// Open a repository.
    OpenRepository { path: String },
    /// Have changes kept in an overlay with the given directories.
    UseOverlay { upper: String, work: String },
    /// Make a mount of the served image over the objects.
    MountServed,
    /// Have the kernel make a mount of an image of the repository.
    MountImage { image: String },
    /// The image holds nothing that could be mounted.
    Refuse,
    /// Attach the mount that was made to a place.
    Attach { target: String },
}

/// The model of a [`MountStep`].
#[verifier::ext_equal]
pub enum MountStepView {
    Bind { source: Seq<char>, target: Seq<char> },
    RemountReadOnly { target: Seq<char> },
    MakeDir { path: Seq<char> },
    OpenOverlay,
    Configure(FsSettingView),
    CreateOverlay,
    OpenFuse,
    Serve { repo: Seq<char>, image: Seq<char> },
    OpenObjects { path: Seq<char> },
    OpenRepository { path: Seq<char> },
    UseOverlay { upper: Seq<char>, work: Seq<char> },
    MountServed,
    MountImage { image: Seq<char> },
    Refuse,
    Attach { target: Seq<char> },
}

impl View for MountStep {
    type V = MountStepView;

    open spec fn view(&self) -> MountStepView {
        match *self {
            MountStep::Bind { source, target } => MountStepView::Bind {
                source: source@,
                target: target@,
            },
            MountStep::RemountReadOnly { target } => MountStepView::RemountReadOnly {
                target: target@,
            },
            MountStep::MakeDir { path } => MountStepView::MakeDir { path: path@ },
            MountStep::OpenOverlay => MountStepView::OpenOverlay,
            MountStep::Configure(setting) => MountStepView::Configure(setting@),
            MountStep::CreateOverlay => MountStepView::CreateOverlay,
            MountStep::OpenFuse => MountStepView::OpenFuse,
            MountStep::Serve { repo, image } => MountStepView::Serve { repo: repo@, image: image@ },
            MountStep::OpenObjects { path } => MountStepView::OpenObjects { path: path@ },
            MountStep::OpenRepository { path } => MountStepView::OpenRepository { path: path@ },
            MountStep::UseOverlay { upper, work } => MountStepView::UseOverlay {
                upper: upper@,
                work: work@,
            },
            MountStep::MountServed => MountStepView::MountServed,
            MountStep::MountImage { image } => MountStepView::MountImage { image: image@ },
            MountStep::Refuse => MountStepView::Refuse,
            MountStep::Attach { target } => MountStepView::Attach { target: target@ },
        }
    }
}

/// The directories of an overlay are made one behind the other. They may be there already: what
/// an earlier container has left in them is kept.
pub open spec fn make_dirs(dirs: OverlayDirsView) -> Seq<MountStepView> {
    seq![
        MountStepView::MakeDir { path: dirs.upper },
        MountStepView::MakeDir { path: dirs.work },
    ]
}

/// What a writable image needs.
pub open spec fn overlay_steps(dirs: Option<OverlayDirsView>) -> Seq<MountStepView> {
    match dirs {
        Some(dirs) => make_dirs(dirs).push(
            MountStepView::UseOverlay { upper: dirs.upper, work: dirs.work },
        ),
        None => seq![],
    }
}

/// Setting by setting.
pub open spec fn configure_steps(settings: Seq<FsSettingView>) -> Seq<MountStepView> {
    settings.map_values(|s: FsSettingView| MountStepView::Configure(s))
}

/// How a root file system of the given form is mounted at a place.
pub open spec fn mount_steps_value(
    rootfs: RootfsView,
    repo_path: Seq<char>,
    target: Seq<char>,
) -> Seq<MountStepView> {
    match rootfs {
        RootfsView::Bind { source } => seq![
            MountStepView::Bind { source, target },
            MountStepView::RemountReadOnly { target },
        ],
        RootfsView::Overlay { lower, dirs, userxattr } => make_dirs(dirs) + seq![
            MountStepView::OpenOverlay,
        ] + configure_steps(overlay_settings_value(lower, dirs, userxattr)) + seq![
            MountStepView::CreateOverlay,
            MountStepView::Attach { target },
        ],
        RootfsView::Fuse { objects, image, dirs } => match image {
            None => seq![MountStepView::OpenFuse, MountStepView::Refuse],
            Some(image) => seq![
                MountStepView::OpenFuse,
                MountStepView::Serve { repo: repo_path, image },
                MountStepView::OpenObjects { path: objects },
            ] + overlay_steps(dirs) + seq![
                MountStepView::MountServed,
                MountStepView::Attach { target },
            ],
        },
        RootfsView::Erofs { image, dirs } => seq![
            MountStepView::OpenRepository { path: repo_path },
        ] + overlay_steps(dirs) + match image {
            None => seq![MountStepView::Refuse],
            Some(image) => seq![
                MountStepView::MountImage { image },
                MountStepView::Attach { target },
            ],
        },
    }
}

fn push_step(steps: &mut Vec<MountStep>, step: MountStep)
    ensures
        views(final(steps)@) == views(old(steps)@).push(step@),
{
    let ghost before = views(steps@);
    steps.push(step);
    assert(views(steps@) =~= before.push(step@));
}

fn push_make_dirs(steps: &mut Vec<MountStep>, dirs: &OverlayDirs)
    ensures
        views(final(steps)@) == views(old(steps)@) + make_dirs(dirs@),
{
    let ghost before = views(steps@);
    push_step(steps, MountStep::MakeDir { path: dirs.upper.clone() });
    push_step(steps, MountStep::MakeDir { path: dirs.work.clone() });
    assert(views(steps@) =~= before + make_dirs(dirs@));
}

fn push_overlay(steps: &mut Vec<MountStep>, dirs: &Option<OverlayDirs>)
    ensures
        views(final(steps)@) == views(old(steps)@) + overlay_steps(opt_dirs(*dirs)),
{
    let ghost before = views(steps@);
    if let Some(dirs) = dirs {
        push_make_dirs(steps, dirs);
        push_step(
            steps,
            MountStep::UseOverlay { upper: dirs.upper.clone(), work: dirs.work.clone() },
        );
    }
    assert(views(steps@) =~= before + overlay_steps(opt_dirs(*dirs)));
}

fn overlay_mount_steps(lower: &str, dirs: &OverlayDirs, userxattr: bool, target: &str) -> (r: Vec<
    MountStep,
>)
    ensures
        views(r@) == make_dirs(dirs@) + seq![MountStepView::OpenOverlay] + configure_steps(
            overlay_settings_value(lower@, dirs@, userxattr),
        ) + seq![MountStepView::CreateOverlay, MountStepView::Attach { target: target@ }],
{
    let mut steps: Vec<MountStep> = Vec::new();
    push_make_dirs(&mut steps, dirs);
    push_step(&mut steps, MountStep::OpenOverlay);
    let settings = overlay_settings(lower, dirs, userxattr);
    let ghost all = overlay_settings_value(lower@, dirs@, userxattr);
    let ghost head = make_dirs(dirs@) + seq![MountStepView::OpenOverlay];
    assert(views(steps@) =~= head + configure_steps(all.take(0)));
    let mut i: usize = 0;
    while i < settings.len()
        invariant
            views(settings@) == all,
            i <= settings@.len(),
            views(steps@) == head + configure_steps(all.take(i as int)),
        decreases settings@.len() - i,
    {
        let step = MountStep::Configure(settings[i].copy());
        assert(settings@[i as int]@ == all[i as int]);
        push_step(&mut steps, step);
        assert(views(steps@) =~= head + configure_steps(all.take(i + 1)));
        i = i + 1;
    }
    assert(all.take(i as int) =~= all);
    let ghost before = views(steps@);
    push_step(&mut steps, MountStep::CreateOverlay);
    push_step(&mut steps, MountStep::Attach { target: target.to_owned() });
    assert(views(steps@) =~= before + seq![
        MountStepView::CreateOverlay,
        MountStepView::Attach { target: target@ },
    ]);
    steps
}

/// How a root file system of the given form is mounted at a place, step by step.
pub fn mount_steps(rootfs: &Rootfs, repo_path: &str, target: &str) -> (r: Vec<MountStep>)
    ensures
        views(r@) == mount_steps_value(rootfs@, repo_path@, target@),
{
    let mut steps: Vec<MountStep> = Vec::new();
    match rootfs {
        Rootfs::Bind { source } => {
            push_step(
                &mut steps,
                MountStep::Bind { source: source.clone(), target: target.to_owned() },
            );
            push_step(&mut steps, MountStep::RemountReadOnly { target: target.to_owned() });
        },
        Rootfs::Overlay { lower, dirs, userxattr } => {
            return overlay_mount_steps(lower.as_str(), dirs, *userxattr, target);
        },
        Rootfs::Fuse { objects, image, dirs } => {
            push_step(&mut steps, MountStep::OpenFuse);
            if let Some(image) = image {
                push_step(
                    &mut steps,
                    MountStep::Serve { repo: repo_path.to_owned(), image: image.clone() },
                );
                push_step(&mut steps, MountStep::OpenObjects { path: objects.clone() });
                push_overlay(&mut steps, dirs);
                push_step(&mut steps, MountStep::MountServed);
                push_step(&mut steps, MountStep::Attach { target: target.to_owned() });
            } else {
                push_step(&mut steps, MountStep::Refuse);
            }
        },
        Rootfs::Erofs { image, dirs } => {
            push_step(&mut steps, MountStep::OpenRepository { path: repo_path.to_owned() });
            push_overlay(&mut steps, dirs);
            if let Some(image) = image {
                push_step(&mut steps, MountStep::MountImage { image: image.clone() });
                push_step(&mut steps, MountStep::Attach { target: target.to_owned() });
            } else {
                push_step(&mut steps, MountStep::Refuse);
            }
        },
    }
    assert(views(steps@) =~= mount_steps_value(rootfs@, repo_path@, target@));
    steps
}

/// What came of making a directory.
#[derive(Clone, Copy, Debug, PartialEq, Eq, Structural)]
pub enum DirOutcome {
    Created,
    AlreadyExists,
    Failed,
}

/// Whether mounting goes on after an attempt to make a directory. One that is there already is
/// used again, with what it holds.
pub fn goes_on(outcome: DirOutcome) -> (r: bool)
    ensures
        r == (outcome == DirOutcome::Created || outcome == DirOutcome::AlreadyExists),
{
    outcome == DirOutcome::Created || outcome == DirOutcome::AlreadyExists
}

// ---------------------------------------------------------------------------------------
// Laws

/// Law: a read-only root file system has no overlay that could be written, any other one has.
pub proof fn law_read_only_has_no_overlay(source: RootfsSource, rootless: bool)
    ensures
        match rootfs_value(source, rootless) {
            RootfsView::Bind { .. } => source.read_only,
            RootfsView::Overlay { .. } => !source.read_only,
            RootfsView::Fuse { dirs, .. } => dirs is None <==> source.read_only,
            RootfsView::Erofs { dirs, .. } => dirs is None <==> source.read_only,
        },
{
}

/// Law: only root has the kernel mount an image, and only an ordinary user has it served; for
/// such a user the overlay keeps its attributes where the user may write them.
pub proof fn law_who_mounts_what(source: RootfsSource, rootless: bool)
    ensures
        match rootfs_value(source, rootless) {
            RootfsView::Bind { .. } => source.rootfs is Some,
            RootfsView::Overlay { userxattr, .. } => source.rootfs is Some && userxattr
                == rootless,
            RootfsView::Fuse { .. } => source.rootfs is None && rootless,
            RootfsView::Erofs { .. } => source.rootfs is None && !rootless,
        },
{
}

/// Whether a step makes a directory or keeps changes in one.
pub open spec fn prepares_writing(step: MountStepView) -> bool {
    step is MakeDir || step is UseOverlay || step is OpenOverlay
}

/// Law: nothing is made for a read-only root file system. A directory that is made is one of
/// the two of the overlay.
pub proof fn law_read_only_writes_nothing(
    source: RootfsSource,
    rootless: bool,
    target: Seq<char>,
    step: int,
)
    requires
        0 <= step < mount_steps_value(
            rootfs_value(source, rootless),
            source.repo_path@,
            target,
        ).len(),
    ensures
        ({
            let steps = mount_steps_value(
                rootfs_value(source, rootless),
                source.repo_path@,
                target,
            );
            &&& source.read_only ==> !prepares_writing(steps[step])
            &&& steps[step] matches MountStepView::MakeDir { path } ==> path == joined(
                source.overlay_dir@,
                "upper"@,
            ) || path == joined(source.overlay_dir@, "work"@)
        }),
{
}

/// Law: whatever is mounted is mounted at the given place, in the last step; without an image
/// nothing is.
pub proof fn law_mounting_ends_at_the_target(
    source: RootfsSource,
    rootless: bool,
    target: Seq<char>,
)
    ensures
        ({
            let steps = mount_steps_value(
                rootfs_value(source, rootless),
                source.repo_path@,
                target,
            );
            &&& steps.len() > 0
            &&& steps.last() == if source.rootfs is Some && source.read_only {
                MountStepView::RemountReadOnly { target }
            } else if source.rootfs is None && source.image is None {
                MountStepView::Refuse
            } else {
                MountStepView::Attach { target }
            }
        }),
{
}

/// A step that only root can take: the kernel mounts an image of a repository.
pub open spec fn is_kernel_mount(step: MountStepView) -> bool {
    step is OpenRepository || step is MountImage
}

/// A step of the detour that ordinary users take: a process serves the image.
pub open spec fn is_served_mount(step: MountStepView) -> bool {
    step is OpenFuse || step is Serve || step is OpenObjects || step is MountServed
}

/// Law: for an ordinary user the kernel mounts no image, and for root none is served.
pub proof fn law_mount_steps_fit_the_user(
    source: RootfsSource,
    rootless: bool,
    target: Seq<char>,
    step: int,
)
    requires
        0 <= step < mount_steps_value(
            rootfs_value(source, rootless),
            source.repo_path@,
            target,
        ).len(),
    ensures
        ({
            let steps = mount_steps_value(
                rootfs_value(source, rootless),
                source.repo_path@,
                target,
            );
            &&& rootless ==> !is_kernel_mount(steps[step])
            &&& !rootless ==> !is_served_mount(steps[step])
        }),
{
}

/// Law: for an ordinary user an image is served: the device is opened, the server is told the
/// repository and the image that were asked for, and the objects are those of that repository. Where
/// changes are kept, it is in the two directories of the overlay. Then the image is mounted and
/// attached. Nothing of this is done twice, and nothing else is done.
pub proof fn law_how_an_image_is_served(source: RootfsSource, target: Seq<char>)
    requires
        source.rootfs is None,
        source.image is Some,
    ensures
        ({
            let steps = mount_steps_value(
                rootfs_value(source, true),
                source.repo_path@,
                target,
            );
            let upper = joined(source.overlay_dir@, "upper"@);
            let work = joined(source.overlay_dir@, "work"@);
            &&& steps.len() == if source.read_only {
                5
            } else {
                8int
            }
            &&& steps[0] == MountStepView::OpenFuse
            &&& steps[1] == MountStepView::Serve {
                repo: source.repo_path@,
                image: source.image->0@,
            }
            &&& steps[2] == MountStepView::OpenObjects {
                path: joined(source.repo_path@, "objects"@),
            }
            &&& !source.read_only ==> steps[3] == MountStepView::MakeDir { path: upper }
            &&& !source.read_only ==> steps[4] == MountStepView::MakeDir { path: work }
            &&& !source.read_only ==> steps[5] == MountStepView::UseOverlay { upper, work }
            &&& steps[steps.len() - 2] == MountStepView::MountServed
            &&& steps[steps.len() - 1] == MountStepView::Attach { target }
            &&& forall|i: int| 0 <= i < steps.len() && #[trigger] steps[i] is Serve ==> i == 1
            &&& forall|i: int|
                0 <= i < steps.len() && #[trigger] steps[i] is OpenObjects ==> i == 2
        }),
{
}

/// Law: for root the kernel mounts an image: the repository that was asked for is opened, and the
/// image that was asked for is mounted from it, with the overlay where changes are kept, and
/// attached. Nothing of this is done twice, and nothing else is done.
pub proof fn law_how_the_kernel_mounts_an_image(source: RootfsSource, target: Seq<char>)
    requires
        source.rootfs is None,
        source.image is Some,
    ensures
        ({
            let steps = mount_steps_value(
                rootfs_value(source, false),
                source.repo_path@,
                target,
            );
            let upper = joined(source.overlay_dir@, "upper"@);
            let work = joined(source.overlay_dir@, "work"@);
            &&& steps.len() == if source.read_only {
                3
            } else {
                6int
            }
            &&& steps[0] == MountStepView::OpenRepository { path: source.repo_path@ }
            &&& !source.read_only ==> steps[1] == MountStepView::MakeDir { path: upper }
            &&& !source.read_only ==> steps[2] == MountStepView::MakeDir { path: work }
            &&& !source.read_only ==> steps[3] == MountStepView::UseOverlay { upper, work }
            &&& steps[steps.len() - 2] == MountStepView::MountImage { image: source.image->0@ }
            &&& steps[steps.len() - 1] == MountStepView::Attach { target }
            &&& forall|i: int|
                0 <= i < steps.len() && #[trigger] steps[i] is OpenRepository ==> i == 0
            &&& forall|i: int|
                0 <= i < steps.len() && #[trigger] steps[i] is MountImage ==> i == steps.len() - 2
        }),
{
}

/// Law: an image that holds nothing to mount is refused, after the device or the repository was
/// opened and before anything is mounted or served.
pub proof fn law_nothing_is_mounted_without_an_image(source: RootfsSource, target: Seq<char>)
    requires
        source.rootfs is None,
        source.image is None,
    ensures
        ({
            let steps = mount_steps_value(
                rootfs_value(source, true),
                source.repo_path@,
                target,
            );
            steps.len() == 2 && steps[0] == MountStepView::OpenFuse && steps[1]
                == MountStepView::Refuse
        }),
        ({
            let steps = mount_steps_value(
                rootfs_value(source, false),
                source.repo_path@,
                target,
            );
            &&& steps[0] == MountStepView::OpenRepository { path: source.repo_path@ }
            &&& steps.last() == MountStepView::Refuse
            &&& forall|i: int|
                0 <= i < steps.len() ==> !(#[trigger] steps[i] is MountImage) && !(
                steps[i] is Attach)
        }),
{
}

/// Law: a directory of the host that is only read is bound to its place and made read-only there.
/// One that is written lies below an overlay with the two directories, which are made first; the
/// overlay is set up, made and attached in this order. Only for an ordinary user its attributes are
/// the user's.
pub proof fn law_how_a_host_directory_is_mounted(
    source: RootfsSource,
    rootless: bool,
    target: Seq<char>,
)
    requires
        source.rootfs is Some,
    ensures
        ({
            let dir = source.rootfs->0@;
            let steps = mount_steps_value(
                rootfs_value(source, rootless),
                source.repo_path@,
                target,
            );
            let upper = joined(source.overlay_dir@, "upper"@);
            let work = joined(source.overlay_dir@, "work"@);
            &&& source.read_only ==> steps.len() == 2
            &&& source.read_only ==> steps[0] == MountStepView::Bind { source: dir, target }
            &&& source.read_only ==> steps[1] == MountStepView::RemountReadOnly { target }
            &&& !source.read_only ==> {
                &&& steps.len() == if rootless {
                    9
                } else {
                    8int
                }
                &&& steps[0] == MountStepView::MakeDir { path: upper }
                &&& steps[1] == MountStepView::MakeDir { path: work }
                &&& steps[2] == MountStepView::OpenOverlay
                &&& steps[3] == MountStepView::Configure(
                    FsSettingView { key: "lowerdir"@, value: Some(dir) },
                )
                &&& steps[4] == MountStepView::Configure(
                    FsSettingView { key: "upperdir"@, value: Some(upper) },
                )
                &&& steps[5] == MountStepView::Configure(
                    FsSettingView { key: "workdir"@, value: Some(work) },
                )
                &&& rootless ==> steps[6] == MountStepView::Configure(
                    FsSettingView { key: "userxattr"@, value: None },
                )
                &&& steps[steps.len() - 2] == MountStepView::CreateOverlay
                &&& steps[steps.len() - 1] == MountStepView::Attach { target }
            }
        }),
{
}

} // verus!
