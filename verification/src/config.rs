//! The user's configuration and the lookups that pick a host, its
//! credentials and the strings built from them.

use vstd::prelude::*;
use crate::text::{contains_str, contains_sub, replace_all, replace_str, starts_with_char, str_equal};
use crate::value::{
    has_key, json_text, keys_unique, lemma_lookup_at, lookup, string_form, Duplicate, JsonValue,
    Table, Tables,
};

verus! {

#[verifier::external_type_specification]
#[verifier::external_body]
pub struct ExRegex(regex::Regex);

#[verifier::external_type_specification]
#[verifier::external_body]
pub struct ExRegexError(regex::Error);

/// `pattern` is accepted by the `regex` crate.
pub uninterp spec fn regex_compiles(pattern: Seq<char>) -> bool;

/// The regular expression `pattern` matches somewhere in `text`.
pub uninterp spec fn regex_finds(pattern: Seq<char>, text: Seq<char>) -> bool;

/// Trusted: `regex::Regex::new`, which succeeds exactly on the patterns the
/// crate accepts; that set is only named.
#[verifier::external_body]
fn regex_new(pattern: &str) -> (r: Result<regex::Regex, regex::Error>)
    ensures
        r is Ok <==> regex_compiles(pattern@),
{
    regex::Regex::new(pattern)
}

/// A compiled regular expression together with its source pattern.
pub(crate) struct CompiledRegex {
    pattern: String,
    regex: regex::Regex,
}

impl CompiledRegex {
    /// The pattern this expression was compiled from.
    pub(crate) closed spec fn source(&self) -> Seq<char> {
        self.pattern@
    }

    /// Compiles `pattern`.
    pub(crate) fn new(pattern: &str) -> (r: Result<CompiledRegex, regex::Error>)
        ensures
            r is Ok <==> regex_compiles(pattern@),
            r matches Ok(c) ==> c.source() == pattern@,
    {
        match regex_new(pattern) {
            Ok(regex) => Ok(CompiledRegex { pattern: pattern.to_owned(), regex }),
            Err(e) => Err(e),
        }
    }

    /// Trusted: `regex::Regex::is_match` on an expression compiled from
    /// `self.source()` (only `new` builds this type), whose outcome is only
    /// named.
    #[verifier::external_body]
    pub(crate) fn is_match(&self, text: &str) -> (r: bool)
        ensures
            r == regex_finds(self.source(), text@),
    {
        self.regex.is_match(text)
    }
}

/// View of a table.
pub type TableView = Seq<(Seq<char>, JsonValue)>;

/// View of a table of tables.
pub type TablesView = Seq<(Seq<char>, TableView)>;

/// The empty table view.
pub open spec fn empty_table() -> TableView {
    Seq::empty()
}

/// The string read from `key` of `m` (see `string_form`).
pub open spec fn string_entry(m: TableView, key: Seq<char>) -> Seq<char> {
    string_form(lookup(m, key)->0)
}

/// The pattern in a host's `regex` entry.
pub open spec fn host_pattern(h: TableView) -> Seq<char> {
    string_entry(h, "regex"@)
}

/// A host can be tested: it has a `regex` entry that compiles.
pub open spec fn host_usable(h: TableView) -> bool {
    has_key(h, "regex"@) && regex_compiles(host_pattern(h))
}

/// A host's pattern matches the cluster name.
pub open spec fn host_selects(h: TableView, cluster: Seq<char>) -> bool {
    regex_finds(host_pattern(h), cluster)
}

/// The scan for `cluster` reaches host `i`: every earlier host was usable
/// and did not match.
pub open spec fn host_reached(hosts: TablesView, cluster: Seq<char>, i: int) -> bool {
    forall|j: int|
        0 <= j < i ==> host_usable(#[trigger] hosts[j].1) && !host_selects(hosts[j].1, cluster)
}

/// Every host the scan reaches can be tested.
pub open spec fn hosts_scannable(hosts: TablesView, cluster: Seq<char>) -> bool {
    forall|i: int|
        0 <= i < hosts.len() && host_reached(hosts, cluster, i) ==> host_usable(
            #[trigger] hosts[i].1,
        )
}

/// Host `i` is the one the scan stops at.
pub open spec fn host_chosen(hosts: TablesView, cluster: Seq<char>, i: int) -> bool {
    0 <= i < hosts.len() && host_reached(hosts, cluster, i) && host_usable(hosts[i].1)
        && host_selects(hosts[i].1, cluster)
}

/// The host configuration selected for `cluster`: the first host (in table
/// order) whose pattern matches, or the empty table when none does.
pub open spec fn selected_host(hosts: TablesView, cluster: Seq<char>) -> TableView {
    if exists|i: int| host_chosen(hosts, cluster, i) {
        hosts[choose|i: int| host_chosen(hosts, cluster, i)].1
    } else {
        empty_table()
    }
}

/// The first host the scan reaches that cannot be tested.
pub open spec fn host_broken(hosts: TablesView, cluster: Seq<char>, i: int) -> bool {
    0 <= i < hosts.len() && host_reached(hosts, cluster, i) && !host_usable(hosts[i].1)
}

/// The auth section a host names, or the empty table when none has that name.
pub open spec fn selected_auth(auth: TablesView, host: TableView) -> TableView {
    match lookup(auth, string_entry(host, "auth"@)) {
        Some(t) => t,
        None => empty_table(),
    }
}

/// The hostname for `cluster`: empty without a host; else the host's
/// `hostname_format` with every `{cluster_name}` replaced; else the JSON text
/// of the auth section's `host`.
pub open spec fn hostname_of(host: TableView, auth: TableView, cluster: Seq<char>) -> Seq<char> {
    if host.len() == 0 {
        Seq::empty()
    } else if has_key(host, "hostname_format"@) {
        let f = string_entry(host, "hostname_format"@);
        if contains_sub(f, "{cluster_name}"@) {
            replace_all(f, "{cluster_name}"@, cluster)
        } else {
            f
        }
    } else {
        json_text(lookup(auth, "host"@)->0)
    }
}

/// The `home` entry of the environment table, when it is a string.
pub open spec fn env_home(env: TableView) -> Seq<char> {
    string_entry(env, "home"@)
}

/// `{HOME}` can be filled in `s`: either it does not occur, or the
/// environment has a string `home`.
pub open spec fn home_fillable(env: TableView, s: Seq<char>) -> bool {
    contains_sub(s, "{HOME}"@) ==> (lookup(env, "home"@) matches Some(v) && v is Str)
}

/// `s` with every `{HOME}` replaced by the environment's home directory.
pub open spec fn home_filled(env: TableView, s: Seq<char>) -> Seq<char> {
    if contains_sub(s, "{HOME}"@) {
        replace_all(s, "{HOME}"@, env_home(env))
    } else {
        s
    }
}

/// Why a lookup cannot be carried out.
#[derive(Debug, PartialEq, Eq, Structural)]
pub enum ConfigError {
    /// The configuration has no `hosts` section.
    MissingHosts,
    /// A host reached by the scan has no `regex` entry.
    MissingRegex,
    /// A host reached by the scan has a `regex` that does not compile.
    InvalidRegex,
}

/// The user's configuration: top-level entries (`env`) and the optional
/// `local`, `auth` and `hosts` sections.
pub struct Config {
    pub env: Table,
    pub local: Option<Table>,
    pub auth: Option<Tables>,
    pub hosts: Option<Tables>,
}

impl Config {
    /// The string stored under `key`: a JSON string's characters, or any
    /// other value's JSON text.
    pub fn get_string_from_hashmap(map: &Table, key: &str) -> (r: Box<String>)
        requires
            has_key(map@, key@),
        ensures
            r@ == string_entry(map@, key@),
    {
        let value = map.get(key).unwrap();
        let value_as_string = value.to_json_text();
        if starts_with_char(value_as_string.as_str(), '"') {
            Box::new(value.as_str().unwrap().to_owned())
        } else {
            Box::new(value_as_string)
        }
    }

    /// The configuration of the first host whose `regex` matches
    /// `cluster_name`, or an empty table when none matches.
    pub fn get_host_config(&self, cluster_name: &str) -> (r: Box<Table>)
        requires
            self.hosts is Some,
            hosts_scannable(self.hosts->0@, cluster_name@),
        ensures
            r@ == selected_host(self.hosts->0@, cluster_name@),
    {
        let hosts = self.hosts.as_ref().unwrap();
        let ghost hv = hosts@;
        let n = hosts.len();
        let mut i: usize = 0;
        while i < n
            invariant
                hv == hosts@,
                self.hosts is Some,
                self.hosts->0@ == hv,
                n == hv.len(),
                i <= n,
                hosts_scannable(hv, cluster_name@),
                host_reached(hv, cluster_name@, i as int),
            decreases n - i,
        {
            let host_config = hosts.value_at(i);
            assert(host_usable(hv[i as int].1));
            let regex = Config::get_string_from_hashmap(host_config, "regex");
            let compiled_regex = CompiledRegex::new(regex.as_str()).unwrap();
            if compiled_regex.is_match(cluster_name) {
                proof {
                    assert(host_chosen(hv, cluster_name@, i as int));
                    let k = choose|k: int| host_chosen(hv, cluster_name@, k);
                    if k < i {
                        assert(!host_selects(hv[k].1, cluster_name@));
                    } else if k > i {
                        assert(!host_selects(hv[i as int].1, cluster_name@));
                    }
                    assert(k == i);
                }
                return Box::new(host_config.duplicate());
            }
            assert(host_reached(hv, cluster_name@, i + 1));
            i = i + 1;
        }
        proof {
            if exists|k: int| host_chosen(hv, cluster_name@, k) {
                let k = choose|k: int| host_chosen(hv, cluster_name@, k);
                assert(!host_selects(hv[k].1, cluster_name@));
            }
        }
        let r = Box::new(Table::new());
        r
    }

    /// Looks the host up as `get_host_config` does, first checking that the
    /// scan can be carried out; the errors are those on which the scan would
    /// stop.
    pub fn find_host_config(&self, cluster_name: &str) -> (r: Result<Box<Table>, ConfigError>)
        ensures
            self.hosts is None ==> r == Err::<Box<Table>, ConfigError>(ConfigError::MissingHosts),
            self.hosts matches Some(h) ==> {
                &&& r != Err::<Box<Table>, ConfigError>(ConfigError::MissingHosts)
                &&& r is Ok <==> hosts_scannable(h@, cluster_name@)
                &&& r matches Ok(t) ==> t@ == selected_host(h@, cluster_name@)
                &&& r == Err::<Box<Table>, ConfigError>(ConfigError::MissingRegex) <==> exists|i: int|
                    host_broken(h@, cluster_name@, i) && !has_key(h@[i].1, "regex"@)
                &&& r == Err::<Box<Table>, ConfigError>(ConfigError::InvalidRegex) <==> exists|i: int|
                    host_broken(h@, cluster_name@, i) && has_key(h@[i].1, "regex"@)
            },
    {
        let hosts = match &self.hosts {
            None => return Err(ConfigError::MissingHosts),
            Some(h) => h,
        };
        let ghost hv = hosts@;
        let n = hosts.len();
        let mut i: usize = 0;
        while i < n
            invariant
                hv == hosts@,
                self.hosts is Some,
                self.hosts->0@ == hv,
                n == hv.len(),
                i <= n,
                host_reached(hv, cluster_name@, i as int),
            decreases n - i,
        {
            let host_config = hosts.value_at(i);
            if !host_config.contains_key("regex") {
                proof {
                    assert(host_broken(hv, cluster_name@, i as int));
                    lemma_broken_unique(hv, cluster_name@, i as int);
                }
                return Err(ConfigError::MissingRegex);
            }
            let regex = Config::get_string_from_hashmap(host_config, "regex");
            let compiled_regex = match CompiledRegex::new(regex.as_str()) {
                Ok(c) => c,
                Err(_) => {
                    proof {
                        assert(host_broken(hv, cluster_name@, i as int));
                        lemma_broken_unique(hv, cluster_name@, i as int);
                    }
                    return Err(ConfigError::InvalidRegex);
                },
            };
            if compiled_regex.is_match(cluster_name) {
                proof {
                    assert forall|k: int|
                        0 <= k < hv.len() && host_reached(hv, cluster_name@, k) implies host_usable(
                        #[trigger] hv[k].1,
                    ) by {
                        if k > i {
                            assert(!host_selects(hv[i as int].1, cluster_name@));
                        }
                    }
                    assert forall|k: int| !host_broken(hv, cluster_name@, k) by {}
                }
                return Ok(self.get_host_config(cluster_name));
            }
            assert(host_reached(hv, cluster_name@, i + 1));
            i = i + 1;
        }
        proof {
            assert forall|k: int|
                0 <= k < hv.len() && host_reached(hv, cluster_name@, k) implies host_usable(
                #[trigger] hv[k].1,
            ) by {
                assert(host_usable(hv[k].1) && !host_selects(hv[k].1, cluster_name@));
            }
        }
        Ok(self.get_host_config(cluster_name))
    }

    /// The auth section named by the host's `auth` entry, or an empty table
    /// when the `auth` section has no entry of that name.
    pub fn get_auth_config(&self, host_config: &Box<Table>) -> (r: Box<Table>)
        requires
            has_key(host_config@, "auth"@),
            self.auth is Some,
        ensures
            r@ == selected_auth(self.auth->0@, host_config@),
    {
        let host_auth = Config::get_string_from_hashmap(host_config, "auth");
        let auth = self.auth.as_ref().unwrap();
        let ghost av = auth@;
        let n = auth.len();
        let mut i: usize = 0;
        while i < n
            invariant
                av == auth@,
                n == av.len(),
                keys_unique(av),
                i <= n,
                host_auth@ == string_entry(host_config@, "auth"@),
                self.auth is Some,
                self.auth->0@ == av,
                forall|j: int| 0 <= j < i ==> av[j].0 != host_auth@,
            decreases n - i,
        {
            if str_equal(auth.key_at(i).as_str(), host_auth.as_str()) {
                proof {
                    lemma_lookup_at(av, i as int);
                }
                return Box::new(auth.value_at(i).duplicate());
            }
            i = i + 1;
        }
        Box::new(Table::new())
    }

    /// The hostname to connect to (see `hostname_of`).
    pub fn get_hostname(
        &self,
        host_config: &Box<Table>,
        auth_config: &Box<Table>,
        cluster_name: &str,
    ) -> (r: Box<String>)
        requires
            host_config@.len() > 0 && !has_key(host_config@, "hostname_format"@) ==> has_key(
                auth_config@,
                "host"@,
            ),
        ensures
            r@ == hostname_of(host_config@, auth_config@, cluster_name@),
    {
        if !host_config.is_empty() {
            if host_config.contains_key("hostname_format") {
                let hostname_format = Config::get_string_from_hashmap(host_config, "hostname_format");
                return if contains_str(hostname_format.as_str(), "{cluster_name}") {
                    proof {
                        reveal_strlit("{cluster_name}");
                    }
                    Box::new(replace_str(hostname_format.as_str(), "{cluster_name}", cluster_name))
                } else {
                    hostname_format
                }
            } else {
                Box::new(auth_config.get("host").unwrap().to_json_text())
            }
        } else {
            Box::new(String::new())
        }
    }

    /// The JSON text of the auth section's entry `key`.
    pub fn get_auth(&self, auth_config: &Box<Table>, key: &str) -> (r: Box<String>)
        requires
            has_key(auth_config@, key@),
        ensures
            r@ == json_text(lookup(auth_config@, key@)->0),
    {
        Box::new(auth_config.get(key).unwrap().to_json_text())
    }

    /// The JSON text of the auth section's `ssh_key`, with `{HOME}` filled in.
    pub fn get_ssh_key(&self, auth_config: &Box<Table>) -> (r: Box<String>)
        requires
            has_key(auth_config@, "ssh_key"@),
            home_fillable(self.env@, json_text(lookup(auth_config@, "ssh_key"@)->0)),
        ensures
            r@ == home_filled(self.env@, json_text(lookup(auth_config@, "ssh_key"@)->0)),
    {
        let ssh_key = Box::new(auth_config.get("ssh_key").unwrap().to_json_text());
        self.populate_local_home(ssh_key)
    }

    /// The host's `cluster_directory`, or empty without a host.
    pub fn get_remote_cluster_directory(&self, host_config: &Box<Table>) -> (r: Box<String>)
        requires
            host_config@.len() > 0 ==> has_key(host_config@, "cluster_directory"@),
        ensures
            r@ == (if host_config@.len() == 0 {
                Seq::<char>::empty()
            } else {
                string_entry(host_config@, "cluster_directory"@)
            }),
    {
        if !host_config.is_empty() {
            let cluster_directory = Config::get_string_from_hashmap(host_config, "cluster_directory");
            cluster_directory
        } else {
            Box::new(String::new())
        }
    }

    /// `boxed_string` with every `{HOME}` replaced by the environment's
    /// `home` entry.
    pub fn populate_local_home(&self, boxed_string: Box<String>) -> (r: Box<String>)
        requires
            home_fillable(self.env@, boxed_string@),
        ensures
            r@ == home_filled(self.env@, boxed_string@),
    {
        if contains_str(boxed_string.as_str(), "{HOME}") {
            let home_dir = self.env.get("home").unwrap().as_str().unwrap();
            proof {
                reveal_strlit("{HOME}");
            }
            Box::new(replace_str(boxed_string.as_str(), "{HOME}", home_dir))
        } else {
            boxed_string
        }
    }
}

/// Filling `{HOME}` replaces every occurrence of it by the home directory
/// (and so leaves a string without one unchanged).
pub proof fn lemma_home_filled_replaces(env: TableView, s: Seq<char>)
    ensures
        home_filled(env, s) == replace_all(s, "{HOME}"@, env_home(env)),
{
    crate::text::lemma_checked_replace(s, "{HOME}"@, env_home(env));
}

/// A host's `hostname_format` becomes the hostname with every
/// `{cluster_name}` replaced by the cluster's name.
pub proof fn lemma_hostname_from_format(host: TableView, auth: TableView, cluster: Seq<char>)
    requires
        has_key(host, "hostname_format"@),
    ensures
        hostname_of(host, auth, cluster) == replace_all(
            string_entry(host, "hostname_format"@),
            "{cluster_name}"@,
            cluster,
        ),
{
    crate::text::lemma_checked_replace(
        string_entry(host, "hostname_format"@),
        "{cluster_name}"@,
        cluster,
    );
}

/// The pattern stored in a host's `regex` entry, read as a string.
pub open spec fn regex_entry(h: TableView) -> Seq<char> {
    string_form(lookup(h, "regex"@)->0)
}

/// Host selection is decided by the regex crate's unanchored search with each
/// host's own pattern: when every host up to `i` has a compiling `regex`, the
/// pattern of host `i` is found in the cluster name, and no earlier host's
/// pattern is, host `i` is the one selected.
pub proof fn lemma_first_pattern_found_selects(hosts: TablesView, cluster: Seq<char>, i: int)
    requires
        0 <= i < hosts.len(),
        forall|j: int|
            0 <= j <= i ==> has_key(#[trigger] hosts[j].1, "regex"@) && regex_compiles(
                regex_entry(hosts[j].1),
            ),
        regex_finds(regex_entry(hosts[i].1), cluster),
        forall|j: int| 0 <= j < i ==> !regex_finds(regex_entry(#[trigger] hosts[j].1), cluster),
    ensures
        hosts_scannable(hosts, cluster),
        selected_host(hosts, cluster) == hosts[i].1,
{
    assert(host_reached(hosts, cluster, i)) by {
        assert forall|j: int| 0 <= j < i implies host_usable(#[trigger] hosts[j].1) && !host_selects(
            hosts[j].1,
            cluster,
        ) by {
            assert(regex_entry(hosts[j].1) == host_pattern(hosts[j].1));
        }
    }
    assert(regex_entry(hosts[i].1) == host_pattern(hosts[i].1));
    assert(host_chosen(hosts, cluster, i));
    assert forall|k: int|
        0 <= k < hosts.len() && host_reached(hosts, cluster, k) implies host_usable(
        #[trigger] hosts[k].1,
    ) by {
        if k > i {
            assert(host_usable(hosts[i].1) && !host_selects(hosts[i].1, cluster));
        }
    }
    let k = choose|k: int| host_chosen(hosts, cluster, k);
    if k < i {
        assert(!regex_finds(regex_entry(hosts[k].1), cluster));
        assert(regex_entry(hosts[k].1) == host_pattern(hosts[k].1));
    } else if k > i {
        assert(!host_selects(hosts[i].1, cluster));
    }
}

/// When every host has a compiling `regex` and none of these patterns is
/// found in the cluster name, no host is selected: the result is empty.
pub proof fn lemma_no_pattern_found_selects_nothing(hosts: TablesView, cluster: Seq<char>)
    requires
        forall|j: int|
            0 <= j < hosts.len() ==> has_key(#[trigger] hosts[j].1, "regex"@) && regex_compiles(
                regex_entry(hosts[j].1),
            ) && !regex_finds(regex_entry(hosts[j].1), cluster),
    ensures
        hosts_scannable(hosts, cluster),
        selected_host(hosts, cluster) == empty_table(),
{
    assert forall|j: int| 0 <= j < hosts.len() implies host_usable(#[trigger] hosts[j].1)
        && !host_selects(hosts[j].1, cluster) by {
        assert(regex_entry(hosts[j].1) == host_pattern(hosts[j].1));
    }
    if exists|k: int| host_chosen(hosts, cluster, k) {
        let k = choose|k: int| host_chosen(hosts, cluster, k);
        assert(!host_selects(hosts[k].1, cluster));
    }
}

/// When the scan cannot be carried out, some reached host is broken.
pub proof fn lemma_unscannable_has_broken(hosts: TablesView, cluster: Seq<char>)
    ensures
        !hosts_scannable(hosts, cluster) ==> exists|i: int| host_broken(hosts, cluster, i),
{
    if !hosts_scannable(hosts, cluster) {
        let i = choose|i: int|
            !(0 <= i < hosts.len() && host_reached(hosts, cluster, i) ==> host_usable(
                #[trigger] hosts[i].1,
            ));
        assert(host_broken(hosts, cluster, i));
    }
}

/// At most one host is the first broken one.
proof fn lemma_broken_unique(hosts: TablesView, cluster: Seq<char>, i: int)
    requires
        host_broken(hosts, cluster, i),
    ensures
        forall|k: int| host_broken(hosts, cluster, k) ==> k == i,
        !hosts_scannable(hosts, cluster),
{
    assert forall|k: int| host_broken(hosts, cluster, k) implies k == i by {
        if k < i {
            assert(host_usable(hosts[k].1));
        } else if k > i {
            assert(host_usable(hosts[i].1));
        }
    }
}

} // verus!
