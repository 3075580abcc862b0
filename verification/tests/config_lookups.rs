use rusted::config::{Config, ConfigError};
use rusted::value::{ConfigValue, Table, Tables};

fn text(s: &str) -> ConfigValue {
    ConfigValue::from_string(s.to_string())
}

fn json(s: &str) -> ConfigValue {
    ConfigValue::from_json_text(s.to_string()).unwrap()
}

fn table(entries: Vec<(&str, ConfigValue)>) -> Table {
    let mut t = Table::new();
    for (k, v) in entries {
        t.insert(k.to_string(), v);
    }
    t
}

fn sample_config() -> Config {
    let mut hosts = Tables::new();
    hosts.insert(
        "lab".to_string(),
        table(vec![
            ("regex", text("^lab-[0-9]+$")),
            ("auth", text("lab_auth")),
            ("hostname_format", text("{cluster_name}.lab.example.com")),
            ("cluster_directory", text("/srv/clusters")),
        ]),
    );
    hosts.insert(
        "any".to_string(),
        table(vec![
            ("regex", text("^prod")),
            ("auth", text("prod_auth")),
            ("cluster_directory", text("/data")),
        ]),
    );
    let mut auth = Tables::new();
    auth.insert(
        "lab_auth".to_string(),
        table(vec![("user", text("root")), ("ssh_key", text("{HOME}/.ssh/lab"))]),
    );
    auth.insert(
        "prod_auth".to_string(),
        table(vec![("user", text("admin")), ("ssh_key", text("/keys/prod")), ("host", text("bastion.example.com"))]),
    );
    Config {
        env: table(vec![("home", text("/home/me"))]),
        local: Some(table(vec![("ai_interface", text("ollama")), ("ai_model", text("llama3"))])),
        auth: Some(auth),
        hosts: Some(hosts),
    }
}

#[test]
fn string_entries_unquote_strings_only() {
    let t = table(vec![("name", text("lab")), ("port", json("22")), ("flag", json("true"))]);
    assert_eq!(*Config::get_string_from_hashmap(&t, "name"), "lab");
    assert_eq!(*Config::get_string_from_hashmap(&t, "port"), "22");
    assert_eq!(*Config::get_string_from_hashmap(&t, "flag"), "true");
}

#[test]
fn host_selection_takes_first_matching_regex() {
    let c = sample_config();
    let lab = c.get_host_config("lab-12");
    assert_eq!(lab.get("auth").unwrap().as_str(), Some("lab_auth"));
    let prod = c.get_host_config("prod-eu");
    assert_eq!(prod.get("auth").unwrap().as_str(), Some("prod_auth"));
    let none = c.get_host_config("dev-1");
    assert!(none.is_empty());
}

#[test]
fn host_lookup_reports_why_it_cannot_scan() {
    let mut c = sample_config();
    assert_eq!(c.find_host_config("lab-1").unwrap().get("auth").unwrap().as_str(), Some("lab_auth"));
    assert!(c.find_host_config("dev").unwrap().is_empty());
    let mut broken = Tables::new();
    broken.insert("bad".to_string(), table(vec![("regex", text("(unclosed"))]));
    c.hosts = Some(broken);
    assert_eq!(c.find_host_config("x").err(), Some(ConfigError::InvalidRegex));
    let mut no_regex = Tables::new();
    no_regex.insert("bad".to_string(), table(vec![("auth", text("a"))]));
    c.hosts = Some(no_regex);
    assert_eq!(c.find_host_config("x").err(), Some(ConfigError::MissingRegex));
    c.hosts = None;
    assert_eq!(c.find_host_config("x").err(), Some(ConfigError::MissingHosts));
}

#[test]
fn host_lookup_stops_before_broken_hosts() {
    let mut c = sample_config();
    let mut hosts = Tables::new();
    hosts.insert("good".to_string(), table(vec![("regex", text("^a"))]));
    hosts.insert("bad".to_string(), table(vec![("regex", text("(unclosed"))]));
    c.hosts = Some(hosts);
    assert!(c.find_host_config("abc").is_ok());
    assert_eq!(c.find_host_config("zzz").err(), Some(ConfigError::InvalidRegex));
}

#[test]
fn auth_section_is_the_one_the_host_names() {
    let c = sample_config();
    let host = c.get_host_config("lab-3");
    let auth = c.get_auth_config(&host);
    assert_eq!(auth.get("user").unwrap().as_str(), Some("root"));
    let unnamed = Box::new(table(vec![("auth", text("nobody"))]));
    assert!(c.get_auth_config(&unnamed).is_empty());
}

#[test]
fn hostname_comes_from_format_or_auth_host() {
    let c = sample_config();
    let lab = c.get_host_config("lab-3");
    let lab_auth = c.get_auth_config(&lab);
    assert_eq!(*c.get_hostname(&lab, &lab_auth, "lab-3"), "lab-3.lab.example.com");
    let prod = c.get_host_config("prod-1");
    let prod_auth = c.get_auth_config(&prod);
    assert_eq!(*c.get_hostname(&prod, &prod_auth, "prod-1"), "\"bastion.example.com\"");
    let fixed = Box::new(table(vec![("hostname_format", text("fixed.example.com"))]));
    assert_eq!(*c.get_hostname(&fixed, &prod_auth, "x"), "fixed.example.com");
    let twice = Box::new(table(vec![("hostname_format", text("{cluster_name}-{cluster_name}"))]));
    assert_eq!(*c.get_hostname(&twice, &prod_auth, "c"), "c-c");
    let empty = Box::new(Table::new());
    assert_eq!(*c.get_hostname(&empty, &prod_auth, "x"), "");
}

#[test]
fn auth_entries_are_json_text() {
    let c = sample_config();
    let prod = c.get_host_config("prod-1");
    let auth = c.get_auth_config(&prod);
    assert_eq!(*c.get_auth(&auth, "user"), "\"admin\"");
    assert_eq!(*c.get_ssh_key(&auth), "\"/keys/prod\"");
    let lab = c.get_host_config("lab-1");
    let lab_auth = c.get_auth_config(&lab);
    assert_eq!(*c.get_ssh_key(&lab_auth), "\"/home/me/.ssh/lab\"");
}

#[test]
fn cluster_directory_and_home_filling() {
    let c = sample_config();
    let lab = c.get_host_config("lab-1");
    assert_eq!(*c.get_remote_cluster_directory(&lab), "/srv/clusters");
    assert_eq!(*c.get_remote_cluster_directory(&Box::new(Table::new())), "");
    assert_eq!(*c.populate_local_home(Box::new("{HOME}/a:{HOME}/b".to_string())), "/home/me/a:/home/me/b");
    assert_eq!(*c.populate_local_home(Box::new("/plain".to_string())), "/plain");
}
