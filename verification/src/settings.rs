//! What the command line and the image amount to, before anything is set up.
use vstd::prelude::*;
use vstd::string::*;

use crate::capability::{effective_set, law_privileged_has_every_capability};
use crate::capability::{effective_capabilities, Capability, CapabilitySet};
use crate::cli::Cli;
use crate::error::{opt_text, seen, RunError, RunErrorView};
use crate::image::label_text;
use crate::image::ImageConfig;
use crate::options::UserSpec;
use crate::process::{
    command_value, cwd_value, effective_user_value, env_value, first_present, hostname_value,
    init_places, systemd_wanted, under_init,
};
use crate::process::{
    effective_command, effective_cwd, effective_env, effective_hostname, effective_user,
    find_catatonit, put_under_init, wants_systemd,
};
use crate::security::{security_settings, SecuritySettings, SecuritySettingsView};
use crate::security::security_settings_value;
use crate::text::{byte_prefix, cuts_cleanly, opt_texts, texts, views};
use crate::text::{concat2, first_bytes};

verus! {

/// What the command line and the image amount to.
pub struct Settings {
    /// The command, behind the init process where there is one.
    pub args: Vec<String>,
    pub env: Vec<String>,
    pub cwd: String,
    pub user: UserSpec,
    pub hostname: String,
    /// The container is set up for systemd.
    pub systemd: bool,
    /// The init process on the host.
    pub init: Option<String>,
    pub capabilities: CapabilitySet,
    pub security: SecuritySettings,
}

/// The model of [`Settings`].
#[verifier::ext_equal]
pub struct SettingsView {
    pub args: Seq<Seq<char>>,
    pub env: Seq<Seq<char>>,
    pub cwd: Seq<char>,
    pub user: UserSpec,
    pub hostname: Seq<char>,
    pub systemd: bool,
    pub init: Option<Seq<char>>,
    pub capabilities: Set<Capability>,
    pub security: SecuritySettingsView,
}

impl View for Settings {
    type V = SettingsView;

    open spec fn view(&self) -> SettingsView {
        SettingsView {
            args: texts(self.args@),
            env: texts(self.env@),
            cwd: self.cwd@,
            user: self.user,
            hostname: self.hostname@,
            systemd: self.systemd,
            init: opt_text(self.init),
            capabilities: self.capabilities@,
            security: self.security@,
        }
    }
}

/// The label in which an image brings its seccomp profile.
pub open spec fn seccomp_label() -> Seq<char> {
    "io.containers.seccomp.profile"@
}

/// The environment; systemd is told which container it runs in.
pub open spec fn full_env(
    cli: Cli,
    config: ImageConfig,
    container_id: Seq<char>,
    systemd: bool,
) -> Seq<Seq<char>> {
    let env = env_value(opt_texts(config.env), cli.tty, texts(cli.unsetenv@), texts(cli.envs@));
    if systemd {
        env.push("container_uuid="@ + byte_prefix(container_id, 32))
    } else {
        env
    }
}

/// The command that the command line and the image name.
pub open spec fn chosen_command(cli: Cli, config: ImageConfig) -> Result<
    Seq<Seq<char>>,
    RunErrorView,
> {
    command_value(texts(cli.cmd@), opt_texts(config.entrypoint), opt_texts(config.cmd))
}

/// What the command line and the image amount to. `present` says which of the places for an
/// init process hold one. Of several things that are wrong, the first of these is reported: no
/// command, no init process, an unknown capability, no seccomp profile, an unknown security
/// option.
pub open spec fn settings_value(
    cli: Cli,
    config: ImageConfig,
    container_id: Seq<char>,
    present: Seq<bool>,
    default_profile: Seq<char>,
) -> Result<SettingsView, RunErrorView> {
    match chosen_command(cli, config) {
        Err(e) => Err(e),
        Ok(command) => {
            let systemd = systemd_wanted(cli.systemd, command);
            let wants_init = !cli.no_init && !systemd;
            let init = first_present(init_places(), present);
            if wants_init && init is None {
                Err(RunErrorView::NoInit)
            } else {
                match effective_set(cli.privileged, texts(cli.cap_add@), texts(cli.cap_drop@)) {
                    Err(e) => Err(e),
                    Ok(capabilities) => match security_settings_value(
                        cli.seccomp_policy,
                        label_text(config.labels@, seccomp_label()),
                        default_profile,
                        cli.privileged,
                        views(cli.security_opt@),
                    ) {
                        Err(e) => Err(e),
                        Ok(security) => Ok(
                            SettingsView {
                                args: if wants_init {
                                    under_init(command)
                                } else {
                                    command
                                },
                                env: full_env(cli, config, container_id, systemd),
                                cwd: cwd_value(
                                    opt_text(cli.workdir_override),
                                    opt_text(config.working_dir),
                                ),
                                user: effective_user_value(cli.user, opt_text(config.user)),
                                hostname: hostname_value(opt_text(cli.hostname), container_id),
                                systemd,
                                init: if wants_init {
                                    init
                                } else {
                                    None
                                },
                                capabilities,
                                security,
                            },
                        ),
                    },
                }
            }
        },
    }
}

/// Works out what the command line and the image amount to. `present` says of each place for an
/// init process whether it holds one; `default_profile` is the file with the seccomp profile of
/// the host.
pub fn resolve_settings(
    cli: &Cli,
    config: &ImageConfig,
    container_id: &str,
    present: &Vec<bool>,
    default_profile: &str,
) -> (r: Result<Settings, RunError>)
    requires
        chosen_command(*cli, *config) is Ok && cli.hostname is None ==> cuts_cleanly(
            container_id@,
            12,
        ),
        settings_value(*cli, *config, container_id@, present@, default_profile@) matches Ok(s)
            ==> s.systemd ==> cuts_cleanly(container_id@, 32),
    ensures
        seen(r) == settings_value(*cli, *config, container_id@, present@, default_profile@),
{
    let command = match effective_command(&cli.cmd, config) {
        Ok(command) => command,
        Err(e) => {
            return Err(e);
        },
    };
    let hostname = effective_hostname(&cli.hostname, container_id);
    let systemd = wants_systemd(cli.systemd, &command);
    let wants_init = !cli.no_init && !systemd;
    let (args, init) = if wants_init {
        match find_catatonit(present) {
            Ok(path) => (put_under_init(&command), Some(path)),
            Err(e) => {
                return Err(e);
            },
        }
    } else {
        (command, None)
    };
    let capabilities = match effective_capabilities(cli.privileged, &cli.cap_add, &cli.cap_drop) {
        Ok(set) => set,
        Err(e) => {
            return Err(e);
        },
    };
    let security = match security_settings(
        cli.seccomp_policy,
        config.label("io.containers.seccomp.profile"),
        default_profile,
        cli.privileged,
        &cli.security_opt,
    ) {
        Ok(security) => security,
        Err(e) => {
            return Err(e);
        },
    };
    let mut env = effective_env(&config.env, cli.tty, &cli.unsetenv, &cli.envs);
    if systemd {
        let ghost before = texts(env@);
        let uuid = concat2("container_uuid=", first_bytes(container_id, 32).as_str());
        env.push(uuid);
        assert(texts(env@) =~= before.push(uuid@));
    }
    Ok(
        Settings {
            args,
            env,
            cwd: effective_cwd(&cli.workdir_override, &config.working_dir),
            user: effective_user(&cli.user, &config.user),
            hostname,
            systemd,
            init,
            capabilities,
            security,
        },
    )
}

/// Law: a container that is set up for systemd has no init process before it; any other one has,
/// unless the user does not want it, and then its command stands behind the init process.
pub proof fn law_init_or_systemd(
    cli: Cli,
    config: ImageConfig,
    container_id: Seq<char>,
    present: Seq<bool>,
    default_profile: Seq<char>,
)
    ensures
        settings_value(cli, config, container_id, present, default_profile) matches Ok(s) ==> {
            &&& s.init is Some <==> !s.systemd && !cli.no_init
            &&& chosen_command(cli, config) is Ok
            &&& s.args == if s.init is Some {
                under_init(chosen_command(cli, config)->Ok_0)
            } else {
                chosen_command(cli, config)->Ok_0
            }
        },
{
}

/// Law: a privileged container from which nothing is dropped has every capability, no seccomp
/// profile and no SELinux.
pub proof fn law_privileged_settings(
    cli: Cli,
    config: ImageConfig,
    container_id: Seq<char>,
    present: Seq<bool>,
    default_profile: Seq<char>,
)
    requires
        cli.privileged,
    ensures
        settings_value(cli, config, container_id, present, default_profile) matches Ok(s) ==> {
            &&& cli.cap_drop@.len() == 0 ==> s.capabilities == Set::<Capability>::full()
            &&& s.security.seccomp is None
            &&& s.security.selinux_disabled
        },
{
    if cli.cap_drop@.len() == 0 {
        assert(texts(cli.cap_drop@) =~= seq![]);
        law_privileged_has_every_capability(texts(cli.cap_add@));
    }
}

/// Law: of several things that are wrong the first one is reported: no command, no init process
/// though one is wanted, an unknown capability, then what is wrong with the security options. Where
/// nothing is wrong there is a result.
pub proof fn law_the_first_problem_is_reported(
    cli: Cli,
    config: ImageConfig,
    container_id: Seq<char>,
    present: Seq<bool>,
    default_profile: Seq<char>,
)
    ensures
        ({
            let r = settings_value(cli, config, container_id, present, default_profile);
            let command = command_value(
                texts(cli.cmd@),
                opt_texts(config.entrypoint),
                opt_texts(config.cmd),
            );
            let caps = effective_set(cli.privileged, texts(cli.cap_add@), texts(cli.cap_drop@));
            let security = security_settings_value(
                cli.seccomp_policy,
                label_text(config.labels@, "io.containers.seccomp.profile"@),
                default_profile,
                cli.privileged,
                views(cli.security_opt@),
            );
            if command is Err {
                r == Err::<SettingsView, RunErrorView>(command->Err_0)
            } else if !cli.no_init && !systemd_wanted(cli.systemd, command->Ok_0) && first_present(
                init_places(),
                present,
            ) is None {
                r == Err::<SettingsView, RunErrorView>(RunErrorView::NoInit)
            } else if caps is Err {
                r == Err::<SettingsView, RunErrorView>(caps->Err_0)
            } else if security is Err {
                r == Err::<SettingsView, RunErrorView>(security->Err_0)
            } else {
                r is Ok && r->Ok_0.capabilities == caps->Ok_0 && r->Ok_0.security == security->Ok_0
                    && r->Ok_0.systemd == systemd_wanted(cli.systemd, command->Ok_0)
            }
        }),
{
}

} // verus!
