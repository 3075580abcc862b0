use rusted::cli::{Cli, Invocation, PlanError, Step};
use rusted::config::Config;
use rusted::value::{ConfigValue, Table, Tables};

fn text(s: &str) -> ConfigValue {
    ConfigValue::from_string(s.to_string())
}

fn table(entries: Vec<(&str, ConfigValue)>) -> Table {
    let mut t = Table::new();
    for (k, v) in entries {
        t.insert(k.to_string(), v);
    }
    t
}

fn config() -> Config {
    let mut hosts = Tables::new();
    hosts.insert(
        "lab".to_string(),
        table(vec![
            ("regex", text("^lab")),
            ("auth", text("lab_auth")),
            ("hostname_format", text("{cluster_name}.example.com")),
            ("cluster_directory", text("/srv/clusters")),
        ]),
    );
    let mut auth = Tables::new();
    auth.insert(
        "lab_auth".to_string(),
        table(vec![("user", text("core")), ("ssh_key", text("{HOME}/.ssh/id"))]),
    );
    Config {
        env: table(vec![("home", text("/home/me"))]),
        local: Some(table(vec![("ai_interface", text("ollama")), ("ai_model", text("llama3"))])),
        auth: Some(auth),
        hosts: Some(hosts),
    }
}

fn describe(steps: &[Step]) -> Vec<String> {
    steps
        .iter()
        .map(|s| match s {
            Step::Bash(c) => format!("bash[{}] {}", c.verify_command, c.command),
            Step::Print(t) => format!("print {}", t),
            Step::Ollama(c) => format!("ollama {}", c),
        })
        .collect()
}

fn plan(inv: Invocation) -> Result<Vec<String>, PlanError> {
    Cli::plan(&config(), &inv, "/home/me").map(|s| describe(&s))
}

#[test]
fn git_subcommands() {
    assert_eq!(plan(Invocation::Log).unwrap(), vec!["bash[false] git log -n 5 --oneline"]);
    assert_eq!(plan(Invocation::Fix).unwrap(), vec!["bash[false] git rebase -i HEAD~2"]);
    assert_eq!(plan(Invocation::Amend).unwrap(), vec!["bash[false] git commit --amend"]);
    assert!(plan(Invocation::Nothing).unwrap().is_empty());
}

#[test]
fn ssh_bash_opens_a_remote_shell() {
    let steps = plan(Invocation::SshBash { cluster_name: "lab-7".to_string() }).unwrap();
    assert_eq!(
        steps,
        vec!["bash[true] ssh -i \"\\\"/home/me/.ssh/id\\\"\" \"core\"@lab-7.example.com /usr/bin/env bash -l -c 'cd \"~\" && /usr/bin/env bash -i'"]
    );
}

#[test]
fn get_config_copies_the_kubeconfig() {
    let steps = plan(Invocation::GetConfig { cluster_name: "lab-7".to_string() }).unwrap();
    assert_eq!(
        steps,
        vec![
            "bash[true] mkdir -p /home/me/.kube/lab-7/".to_string(),
            "bash[true] scp -i \"/home/me/.ssh/id\" \"core\"@lab-7.example.com:\"/srv/clusters/lab-7/auth/*\" /home/me/.kube/lab-7/".to_string(),
            "print Run:\nexport KUBECONFIG=/home/me/.kube/lab-7/kubeconfig\n\n".to_string(),
        ]
    );
}

#[test]
fn remote_errors() {
    assert_eq!(
        plan(Invocation::SshBash { cluster_name: "prod".to_string() }).err(),
        Some(PlanError::MissingAuthName)
    );
    let mut c = config();
    c.hosts = None;
    let inv = Invocation::GetConfig { cluster_name: "lab".to_string() };
    assert_eq!(Cli::plan(&c, &inv, "/h").err(), Some(PlanError::MissingHosts));
    let mut c = config();
    c.auth = None;
    assert_eq!(Cli::plan(&c, &inv, "/h").err(), Some(PlanError::MissingAuthSection));
    let mut c = config();
    c.env = Table::new();
    assert_eq!(Cli::plan(&c, &inv, "/h").err(), Some(PlanError::HomeUnavailable));
    let mut c = config();
    let mut hosts = Tables::new();
    hosts.insert("h".to_string(), table(vec![("regex", text("^l")), ("auth", text("lab_auth"))]));
    c.hosts = Some(hosts);
    assert_eq!(Cli::plan(&c, &inv, "/h").err(), Some(PlanError::MissingHostAddress));
    let mut hosts = Tables::new();
    hosts.insert(
        "h".to_string(),
        table(vec![("regex", text("^l")), ("auth", text("lab_auth")), ("hostname_format", text("x"))]),
    );
    c.hosts = Some(hosts);
    assert_eq!(Cli::plan(&c, &inv, "/h").err(), Some(PlanError::MissingClusterDirectory));
    let ssh = Invocation::SshBash { cluster_name: "lab".to_string() };
    assert!(Cli::plan(&c, &ssh, "/h").is_ok());
    let mut hosts = Tables::new();
    hosts.insert("h".to_string(), table(vec![("regex", text("["))]));
    c.hosts = Some(hosts);
    assert_eq!(Cli::plan(&c, &ssh, "/h").err(), Some(PlanError::InvalidRegex));
    let mut hosts = Tables::new();
    hosts.insert("h".to_string(), table(vec![("auth", text("lab_auth"))]));
    c.hosts = Some(hosts);
    assert_eq!(Cli::plan(&c, &ssh, "/h").err(), Some(PlanError::MissingRegex));
}

#[test]
fn ai_requests() {
    let ai = |m: &str, c: &str| plan(Invocation::Ai { model: m.to_string(), command: c.to_string() });
    assert_eq!(ai("", "").unwrap(), vec!["ollama run llama3"]);
    assert_eq!(ai("list", "x").unwrap(), vec!["ollama list"]);
    assert_eq!(ai("pull", "mistral").unwrap(), vec!["ollama pull mistral"]);
    let mut c = config();
    c.local = Some(table(vec![("ai_interface", text("openai")), ("ai_model", text("m"))]));
    let inv = Invocation::Ai { model: String::new(), command: String::new() };
    assert_eq!(Cli::plan(&c, &inv, "/h").err(), Some(PlanError::InterfaceNotImplemented));
    c.local = Some(table(vec![("ai_interface", text("ollama"))]));
    assert_eq!(Cli::plan(&c, &inv, "/h").err(), Some(PlanError::MissingAiModel));
    c.local = Some(table(vec![("ai_model", text("m"))]));
    assert_eq!(Cli::plan(&c, &inv, "/h").err(), Some(PlanError::MissingAiInterface));
    c.local = None;
    assert_eq!(Cli::plan(&c, &inv, "/h").err(), Some(PlanError::MissingLocalSection));
}
