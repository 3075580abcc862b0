//! What each subcommand of the command-line tool does, as a list of steps
//! for the program to carry out.

use vstd::prelude::*;
use crate::bash::BashCall;
use crate::config::{
    lemma_hostname_from_format, TableView, home_fillable, home_filled, host_broken, hostname_of, hosts_scannable, selected_auth,
    selected_host, string_entry, Config, ConfigError,
};
use crate::ssh::{scp_command, ssh_command, SshHost};
use crate::text::{replace_all, str_equal};
use crate::value::{has_key, json_text, lookup};

verus! {

/// A parsed command line.
pub enum Invocation {
    /// `log`: the last commits.
    Log,
    /// `fix`: interactive rebase of the last two commits.
    Fix,
    /// `amend`: amend the last commit.
    Amend,
    /// `ssh-bash <cluster_name>`: a shell on the cluster's host.
    SshBash { cluster_name: String },
    /// `get-config <cluster_name>`: fetch the cluster's kubeconfig.
    GetConfig { cluster_name: String },
    /// `ai [model] [command]`: talk to a local model.
    Ai { model: String, command: String },
    /// No subcommand.
    Nothing,
}

/// One thing the program does.
pub enum Step {
    /// Run a shell command.
    Bash(BashCall),
    /// Print a line.
    Print(String),
    /// Start an Ollama session and run `ollama <command>` in it.
    Ollama(String),
}

/// The view of a step.
pub enum StepView {
    Bash(Seq<char>, bool),
    Print(Seq<char>),
    Ollama(Seq<char>),
}

impl View for Step {
    type V = StepView;

    open spec fn view(&self) -> StepView {
        match self {
            Step::Bash(c) => StepView::Bash(c.command@, c.verify_command),
            Step::Print(s) => StepView::Print(s@),
            Step::Ollama(s) => StepView::Ollama(s@),
        }
    }
}

/// The views of a list of steps.
pub open spec fn steps_view(steps: Seq<Step>) -> Seq<StepView> {
    steps.map_values(|s: Step| s@)
}

/// Why a subcommand cannot be carried out with the given configuration.
#[derive(Debug, PartialEq, Eq, Structural)]
pub enum PlanError {
    /// No `hosts` section.
    MissingHosts,
    /// A host reached while matching the cluster name has no `regex`.
    MissingRegex,
    /// A host reached while matching the cluster name has an invalid `regex`.
    InvalidRegex,
    /// The selected host names no `auth` section (also when no host matched).
    MissingAuthName,
    /// No `auth` section.
    MissingAuthSection,
    /// The host has no `hostname_format` and its auth section no `host`.
    MissingHostAddress,
    /// The auth section has no `user`.
    MissingUser,
    /// The auth section has no `ssh_key`.
    MissingSshKey,
    /// The key holds `{HOME}` but the environment has no string `home`.
    HomeUnavailable,
    /// The host has no `cluster_directory`.
    MissingClusterDirectory,
    /// No `local` section.
    MissingLocalSection,
    /// The `local` section has no `ai_interface`.
    MissingAiInterface,
    /// The `local` section has no `ai_model`.
    MissingAiModel,
    /// The configured interface is not `ollama`.
    InterfaceNotImplemented,
}

/// The `ollama` arguments for the `ai` subcommand: `run <default model>`
/// without a model, `list` for `list`, else `<model> <command>`.
pub open spec fn ollama_request(model: Seq<char>, command: Seq<char>, default_model: Seq<char>) -> Seq<
    char,
> {
    if model == ""@ {
        "run "@ + default_model
    } else if model == "list"@ {
        "list"@
    } else {
        model + " "@ + command
    }
}

/// Where `get-config` puts a cluster's files.
pub open spec fn kube_destination(home: Seq<char>, cluster: Seq<char>) -> Seq<char> {
    home + "/.kube/"@ + cluster + "/"@
}

/// The remote glob `get-config` copies.
pub open spec fn kube_source(cluster_directory: Seq<char>, cluster: Seq<char>) -> Seq<char> {
    "\""@ + cluster_directory + "/"@ + cluster + "/auth/*\""@
}

/// The steps of `ssh-bash` (`get_config` false) and `get-config` (true).
pub open spec fn remote_steps(config: &Config, cluster: Seq<char>, home: Seq<char>, get_config: bool) -> Result<
    Seq<StepView>,
    PlanError,
> {
    match config.hosts {
        None => Err(PlanError::MissingHosts),
        Some(hosts) => {
            let hv = hosts@;
            if !hosts_scannable(hv, cluster) {
                if exists|i: int| host_broken(hv, cluster, i) && !has_key(hv[i].1, "regex"@) {
                    Err(PlanError::MissingRegex)
                } else {
                    Err(PlanError::InvalidRegex)
                }
            } else {
                let host = selected_host(hv, cluster);
                if !has_key(host, "auth"@) {
                    Err(PlanError::MissingAuthName)
                } else {
                    match config.auth {
                        None => Err(PlanError::MissingAuthSection),
                        Some(auth) => {
                            let a = selected_auth(auth@, host);
                            if !has_key(host, "hostname_format"@) && !has_key(a, "host"@) {
                                Err(PlanError::MissingHostAddress)
                            } else if !has_key(a, "user"@) {
                                Err(PlanError::MissingUser)
                            } else if !has_key(a, "ssh_key"@) {
                                Err(PlanError::MissingSshKey)
                            } else {
                                let raw_key = json_text(lookup(a, "ssh_key"@)->0);
                                if !home_fillable(config.env@, raw_key) {
                                    Err(PlanError::HomeUnavailable)
                                } else {
                                    let hostname = hostname_of(host, a, cluster);
                                    let user = json_text(lookup(a, "user"@)->0);
                                    let key = home_filled(config.env@, raw_key);
                                    if !get_config {
                                        Ok(
                                            seq![
                                                StepView::Bash(
                                                    ssh_command(
                                                        key,
                                                        user,
                                                        hostname,
                                                        "~"@,
                                                        "/usr/bin/env bash -i"@,
                                                    ),
                                                    true,
                                                ),
                                            ],
                                        )
                                    } else if !has_key(host, "cluster_directory"@) {
                                        Err(PlanError::MissingClusterDirectory)
                                    } else {
                                        let dir = string_entry(host, "cluster_directory"@);
                                        let source = kube_source(dir, cluster);
                                        let dest = kube_destination(home, cluster);
                                        Ok(
                                            seq![
                                                StepView::Bash("mkdir -p "@ + dest, true),
                                                StepView::Bash(
                                                    scp_command(key, user, hostname, source, dest),
                                                    true,
                                                ),
                                                StepView::Print(
                                                    "Run:\nexport KUBECONFIG="@ + dest
                                                        + "kubeconfig\n\n"@,
                                                ),
                                            ],
                                        )
                                    }
                                }
                            }
                        },
                    }
                }
            }
        },
    }
}

/// `get-config` first does everything `ssh-bash` does: it fails wherever
/// `ssh-bash` fails, with the same error, and otherwise fails only for a
/// missing `cluster_directory`.
pub proof fn lemma_get_config_extends_ssh_bash(config: &Config, cluster: Seq<char>, home: Seq<char>)
    ensures
        remote_steps(config, cluster, home, false) matches Err(e) ==> remote_steps(
            config,
            cluster,
            home,
            true,
        ) == Err::<Seq<StepView>, PlanError>(e),
        remote_steps(config, cluster, home, true) is Ok ==> remote_steps(
            config,
            cluster,
            home,
            false,
        ) is Ok,
        remote_steps(config, cluster, home, false) is Ok && remote_steps(
            config,
            cluster,
            home,
            true,
        ) is Err ==> remote_steps(config, cluster, home, true) == Err::<Seq<StepView>, PlanError>(
            PlanError::MissingClusterDirectory,
        ),
{
}

/// The machine remote steps reach: the host's `hostname_format` with every
/// `{cluster_name}` replaced by the cluster's name, or else the JSON text of the
/// auth section's `host`.
pub open spec fn configured_target(host: TableView, auth: TableView, cluster: Seq<char>) -> Seq<char> {
    if has_key(host, "hostname_format"@) {
        replace_all(string_entry(host, "hostname_format"@), "{cluster_name}"@, cluster)
    } else {
        json_text(lookup(auth, "host"@)->0)
    }
}

/// `ssh-bash` opens a login shell in `~` on the configured machine, as the
/// auth section's user with its key (`{HOME}` filled in); `get-config` makes
/// the local kube directory, then copies `<cluster_directory>/<cluster>/auth/*`
/// from that same machine with the same user and key, then prints the export.
pub proof fn lemma_remote_steps_reach_configured_host(
    config: &Config,
    cluster: Seq<char>,
    home: Seq<char>,
)
    requires
        remote_steps(config, cluster, home, false) is Ok,
    ensures
        config.hosts is Some,
        config.auth is Some,
        ({
            let host = selected_host(config.hosts->0@, cluster);
            let auth = selected_auth(config.auth->0@, host);
            let target = configured_target(host, auth, cluster);
            let user = json_text(lookup(auth, "user"@)->0);
            let key = home_filled(config.env@, json_text(lookup(auth, "ssh_key"@)->0));
            let dest = home + "/.kube/"@ + cluster + "/"@;
            &&& remote_steps(config, cluster, home, false) == Ok::<Seq<StepView>, PlanError>(
                seq![
                    StepView::Bash(
                        ssh_command(key, user, target, "~"@, "/usr/bin/env bash -i"@),
                        true,
                    ),
                ],
            )
            &&& remote_steps(config, cluster, home, true) matches Ok(steps) ==> steps == seq![
                StepView::Bash("mkdir -p "@ + dest, true),
                StepView::Bash(
                    scp_command(
                        key,
                        user,
                        target,
                        "\""@ + string_entry(host, "cluster_directory"@) + "/"@ + cluster
                            + "/auth/*\""@,
                        dest,
                    ),
                    true,
                ),
                StepView::Print("Run:\nexport KUBECONFIG="@ + dest + "kubeconfig\n\n"@),
            ]
        }),
{
    let host = selected_host(config.hosts->0@, cluster);
    let auth = selected_auth(config.auth->0@, host);
    if has_key(host, "hostname_format"@) {
        lemma_hostname_from_format(host, auth, cluster);
    }
}

/// `ai` asks the configured interface by the model argument first: `list`
/// lists the models whatever the command, no model runs the configured model,
/// and any other model is passed on followed by the command.
pub proof fn lemma_ai_request_follows_model(
    config: &Config,
    model: Seq<char>,
    command: Seq<char>,
    other_command: Seq<char>,
)
    requires
        config.local is Some,
        has_key(config.local->0@, "ai_interface"@),
        has_key(config.local->0@, "ai_model"@),
        string_entry(config.local->0@, "ai_interface"@) == "ollama"@,
    ensures
        ai_steps(config, "list"@, command) == Ok::<Seq<StepView>, PlanError>(
            seq![StepView::Ollama("list"@)],
        ),
        ai_steps(config, "list"@, command) == ai_steps(config, "list"@, other_command),
        ai_steps(config, ""@, command) == Ok::<Seq<StepView>, PlanError>(
            seq![StepView::Ollama("run "@ + string_entry(config.local->0@, "ai_model"@))],
        ),
        model != ""@ && model != "list"@ ==> ai_steps(config, model, command) == Ok::<
            Seq<StepView>,
            PlanError,
        >(seq![StepView::Ollama(model + " "@ + command)]),
{
    reveal_strlit("list");
    reveal_strlit("");
    assert("list"@ != ""@) by {
        assert("list"@.len() != ""@.len());
    }
}

/// The steps of `ai`.
pub open spec fn ai_steps(config: &Config, model: Seq<char>, command: Seq<char>) -> Result<
    Seq<StepView>,
    PlanError,
> {
    match config.local {
        None => Err(PlanError::MissingLocalSection),
        Some(local) => {
            if !has_key(local@, "ai_interface"@) {
                Err(PlanError::MissingAiInterface)
            } else if !has_key(local@, "ai_model"@) {
                Err(PlanError::MissingAiModel)
            } else if string_entry(local@, "ai_interface"@) != "ollama"@ {
                Err(PlanError::InterfaceNotImplemented)
            } else {
                Ok(
                    seq![
                        StepView::Ollama(
                            ollama_request(model, command, string_entry(local@, "ai_model"@)),
                        ),
                    ],
                )
            }
        },
    }
}

/// The steps of an invocation; `home` is the user's home directory.
pub open spec fn planned(config: &Config, invocation: &Invocation, home: Seq<char>) -> Result<
    Seq<StepView>,
    PlanError,
> {
    match invocation {
        Invocation::Log => Ok(seq![StepView::Bash("git log -n 5 --oneline"@, false)]),
        Invocation::Fix => Ok(seq![StepView::Bash("git rebase -i HEAD~2"@, false)]),
        Invocation::Amend => Ok(seq![StepView::Bash("git commit --amend"@, false)]),
        Invocation::SshBash { cluster_name } => remote_steps(config, cluster_name@, home, false),
        Invocation::GetConfig { cluster_name } => remote_steps(config, cluster_name@, home, true),
        Invocation::Ai { model, command } => ai_steps(config, model@, command@),
        Invocation::Nothing => Ok(Seq::empty()),
    }
}

/// The command-line tool.
pub struct Cli {}

impl Cli {
    /// The steps that carry out `invocation` with `config`; `home` is the
    /// user's home directory.
    pub fn plan(config: &Config, invocation: &Invocation, home: &str) -> (r: Result<
        Vec<Step>,
        PlanError,
    >)
        ensures
            match r {
                Ok(steps) => planned(config, invocation, home@) == Ok::<
                    Seq<StepView>,
                    PlanError,
                >(steps_view(steps@)),
                Err(e) => planned(config, invocation, home@) == Err::<Seq<StepView>, PlanError>(e),
            },
    {
        match invocation {
            Invocation::Log => Ok(Cli::single_bash("git log -n 5 --oneline", false)),
            Invocation::Fix => Ok(Cli::single_bash("git rebase -i HEAD~2", false)),
            Invocation::Amend => Ok(Cli::single_bash("git commit --amend", false)),
            Invocation::SshBash { cluster_name } => Cli::plan_remote(
                config,
                cluster_name.as_str(),
                home,
                false,
            ),
            Invocation::GetConfig { cluster_name } => Cli::plan_remote(
                config,
                cluster_name.as_str(),
                home,
                true,
            ),
            Invocation::Ai { model, command } => Cli::plan_ai(
                config,
                model.as_str(),
                command.as_str(),
            ),
            Invocation::Nothing => {
                let steps: Vec<Step> = Vec::new();
                assert(steps_view(steps@) =~= Seq::<StepView>::empty());
                Ok(steps)
            },
        }
    }

    fn single_bash(command: &str, verify_command: bool) -> (r: Vec<Step>)
        ensures
            steps_view(r@) == seq![StepView::Bash(command@, verify_command)],
    {
        let mut steps: Vec<Step> = Vec::new();
        steps.push(Step::Bash(BashCall { command: command.to_owned(), verify_command }));
        assert(steps_view(steps@) =~= seq![StepView::Bash(command@, verify_command)]);
        steps
    }

    fn plan_remote(config: &Config, cluster_name: &str, home: &str, get_config: bool) -> (r: Result<
        Vec<Step>,
        PlanError,
    >)
        ensures
            match r {
                Ok(steps) => remote_steps(config, cluster_name@, home@, get_config) == Ok::<
                    Seq<StepView>,
                    PlanError,
                >(steps_view(steps@)),
                Err(e) => remote_steps(config, cluster_name@, home@, get_config) == Err::<
                    Seq<StepView>,
                    PlanError,
                >(e),
            },
    {
        proof {
            if config.hosts is Some {
                crate::config::lemma_unscannable_has_broken(config.hosts->0@, cluster_name@);
            }
        }
        let host_config = match config.find_host_config(cluster_name) {
            Ok(h) => h,
            Err(ConfigError::MissingHosts) => return Err(PlanError::MissingHosts),
            Err(ConfigError::MissingRegex) => return Err(PlanError::MissingRegex),
            Err(ConfigError::InvalidRegex) => {
                return Err(PlanError::InvalidRegex);
            },
        };
        if !host_config.contains_key("auth") {
            return Err(PlanError::MissingAuthName);
        }
        if config.auth.is_none() {
            return Err(PlanError::MissingAuthSection);
        }
        let auth_config = config.get_auth_config(&host_config);
        if !host_config.contains_key("hostname_format") && !auth_config.contains_key("host") {
            return Err(PlanError::MissingHostAddress);
        }
        if !auth_config.contains_key("user") {
            return Err(PlanError::MissingUser);
        }
        if !auth_config.contains_key("ssh_key") {
            return Err(PlanError::MissingSshKey);
        }
        let host = config.get_hostname(&host_config, &auth_config, cluster_name);
        let user = config.get_auth(&auth_config, "user");
        let raw_key = config.get_auth(&auth_config, "ssh_key");
        if !Cli::home_available(config, raw_key.as_str()) {
            return Err(PlanError::HomeUnavailable);
        }
        let key = config.get_ssh_key(&auth_config);
        let ssh_host = SshHost { host, user, key };
        let mut steps: Vec<Step> = Vec::new();
        if !get_config {
            let call = ssh_host.bash("~", "/usr/bin/env bash -i");
            let ghost v = StepView::Bash(call.command@, call.verify_command);
            steps.push(Step::Bash(call));
            assert(steps_view(steps@) =~= seq![v]);
            return Ok(steps);
        }
        if !host_config.contains_key("cluster_directory") {
            return Err(PlanError::MissingClusterDirectory);
        }
        let cluster_directory = config.get_remote_cluster_directory(&host_config);
        let mut source_path = "\"".to_owned();
        source_path.append(cluster_directory.as_str());
        source_path.append("/");
        source_path.append(cluster_name);
        source_path.append("/auth/*\"");
        let mut destination_path = home.to_owned();
        destination_path.append("/.kube/");
        destination_path.append(cluster_name);
        destination_path.append("/");
        let mut mkdir = "mkdir -p ".to_owned();
        mkdir.append(destination_path.as_str());
        let ghost v0 = StepView::Bash(mkdir@, true);
        steps.push(Step::Bash(BashCall { command: mkdir, verify_command: true }));
        let scp = ssh_host.scp_from_host(source_path.as_str(), destination_path.as_str());
        let ghost v1 = StepView::Bash(scp.command@, scp.verify_command);
        steps.push(Step::Bash(scp));
        let mut message = "Run:\nexport KUBECONFIG=".to_owned();
        message.append(destination_path.as_str());
        message.append("kubeconfig\n\n");
        let ghost v2 = StepView::Print(message@);
        steps.push(Step::Print(message));
        assert(steps_view(steps@) =~= seq![v0, v1, v2]);
        Ok(steps)
    }

    /// Whether `{HOME}` can be filled in `s` (see `home_fillable`).
    fn home_available(config: &Config, s: &str) -> (r: bool)
        ensures
            r == home_fillable(config.env@, s@),
    {
        if !crate::text::contains_str(s, "{HOME}") {
            return true;
        }
        match config.env.get("home") {
            None => false,
            Some(v) => v.as_str().is_some(),
        }
    }

    fn plan_ai(config: &Config, model: &str, command: &str) -> (r: Result<Vec<Step>, PlanError>)
        ensures
            match r {
                Ok(steps) => ai_steps(config, model@, command@) == Ok::<Seq<StepView>, PlanError>(
                    steps_view(steps@),
                ),
                Err(e) => ai_steps(config, model@, command@) == Err::<Seq<StepView>, PlanError>(
                    e,
                ),
            },
    {
        let local_config = match &config.local {
            None => return Err(PlanError::MissingLocalSection),
            Some(l) => l,
        };
        if !local_config.contains_key("ai_interface") {
            return Err(PlanError::MissingAiInterface);
        }
        if !local_config.contains_key("ai_model") {
            return Err(PlanError::MissingAiModel);
        }
        let config_interface = Config::get_string_from_hashmap(local_config, "ai_interface");
        let config_model = Config::get_string_from_hashmap(local_config, "ai_model");
        if !str_equal(config_interface.as_str(), "ollama") {
            return Err(PlanError::InterfaceNotImplemented);
        }
        let request = if str_equal(model, "") {
            let mut r = "run ".to_owned();
            r.append(config_model.as_str());
            r
        } else if str_equal(model, "list") {
            "list".to_owned()
        } else {
            let mut r = model.to_owned();
            r.append(" ");
            r.append(command);
            r
        };
        let ghost v = StepView::Ollama(request@);
        let mut steps: Vec<Step> = Vec::new();
        steps.push(Step::Ollama(request));
        assert(steps_view(steps@) =~= seq![v]);
        Ok(steps)
    }
}

} // verus!
