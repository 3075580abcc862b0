//! Commands run on, or copied from, a remote host over ssh.

use vstd::prelude::*;
use crate::bash::BashCall;
use crate::text::{debug_str, str_debug};

verus! {

/// `ssh -i <key> <user>@<host>` followed by a remote login shell that changes
/// to `remote_dir` and runs `remote_command`.
pub open spec fn ssh_command(
    key: Seq<char>,
    user: Seq<char>,
    host: Seq<char>,
    remote_dir: Seq<char>,
    remote_command: Seq<char>,
) -> Seq<char> {
    "ssh -i "@ + str_debug(key) + " "@ + user + "@"@ + host + " /usr/bin/env bash -l -c 'cd "@
        + str_debug(remote_dir) + " && "@ + remote_command + "'"@
}

/// The login part of the ssh command: `ssh -i <key> <user>@<host>` and the
/// remote shell invocation.
pub open spec fn ssh_login(key: Seq<char>, user: Seq<char>, host: Seq<char>) -> Seq<char> {
    "ssh -i "@ + str_debug(key) + " "@ + user + "@"@ + host + " /usr/bin/env bash -l -c "@
}

/// The remote shell first changes to the quoted `remote_dir`, then runs the
/// command; two commands for the same host and command are equal exactly when
/// the directories quote alike.
pub proof fn lemma_ssh_command_enters_remote_dir(
    key: Seq<char>,
    user: Seq<char>,
    host: Seq<char>,
    dir: Seq<char>,
    other_dir: Seq<char>,
    remote_command: Seq<char>,
)
    ensures
        ssh_command(key, user, host, dir, remote_command) == ssh_login(key, user, host) + "'cd "@
            + str_debug(dir) + " && "@ + remote_command + "'"@,
        ssh_command(key, user, host, dir, remote_command) == ssh_command(
            key,
            user,
            host,
            other_dir,
            remote_command,
        ) <==> str_debug(dir) == str_debug(other_dir),
{
    reveal_strlit(" /usr/bin/env bash -l -c 'cd ");
    reveal_strlit(" /usr/bin/env bash -l -c ");
    reveal_strlit("'cd ");
    let login = ssh_login(key, user, host);
    let tail = " && "@ + remote_command + "'"@;
    let a = str_debug(dir);
    let b = str_debug(other_dir);
    let pre = login + "'cd "@;
    assert(ssh_command(key, user, host, dir, remote_command) =~= pre + a + tail);
    assert(ssh_command(key, user, host, other_dir, remote_command) =~= pre + b + tail);
    assert(ssh_command(key, user, host, dir, remote_command) =~= login + "'cd "@ + a + " && "@
        + remote_command + "'"@);
    if pre + a + tail == pre + b + tail {
        assert((pre + a + tail).len() == (pre + b + tail).len());
        assert(a.len() == b.len());
        assert forall|k: int| 0 <= k < a.len() implies a[k] == b[k] by {
            assert((pre + a + tail)[pre.len() + k] == a[k]);
            assert((pre + b + tail)[pre.len() + k] == b[k]);
        }
        assert(a =~= b);
    }
}

/// `scp -i <key> <user>@<host>:<source> <destination>`.
pub open spec fn scp_command(
    key: Seq<char>,
    user: Seq<char>,
    host: Seq<char>,
    source: Seq<char>,
    destination: Seq<char>,
) -> Seq<char> {
    "scp -i "@ + key + " "@ + user + "@"@ + host + ":"@ + source + " "@ + destination
}

/// A remote host reached with an identity file.
pub struct SshHost {
    pub host: Box<String>,
    pub user: Box<String>,
    pub key: Box<String>,
}

impl SshHost {
    /// The confirmed call that runs `remote_command` in `remote_dir` on the host.
    pub fn bash(&self, remote_dir: &str, remote_command: &str) -> (r: BashCall)
        ensures
            r.command@ == ssh_command(
                self.key@,
                self.user@,
                self.host@,
                remote_dir@,
                remote_command@,
            ),
            r.verify_command,
    {
        let mut c = "ssh -i ".to_owned();
        c.append(debug_str(self.key.as_str()).as_str());
        c.append(" ");
        c.append(self.user.as_str());
        c.append("@");
        c.append(self.host.as_str());
        c.append(" /usr/bin/env bash -l -c 'cd ");
        c.append(debug_str(remote_dir).as_str());
        c.append(" && ");
        c.append(remote_command);
        c.append("'");
        BashCall { command: c, verify_command: true }
    }

    /// The confirmed call that copies `source_path` from the host to
    /// `destination_path`.
    pub fn scp_from_host(&self, source_path: &str, destination_path: &str) -> (r: BashCall)
        ensures
            r.command@ == scp_command(
                self.key@,
                self.user@,
                self.host@,
                source_path@,
                destination_path@,
            ),
            r.verify_command,
    {
        let mut c = "scp -i ".to_owned();
        c.append(self.key.as_str());
        c.append(" ");
        c.append(self.user.as_str());
        c.append("@");
        c.append(self.host.as_str());
        c.append(":");
        c.append(source_path);
        c.append(" ");
        c.append(destination_path);
        BashCall { command: c, verify_command: true }
    }
}

} // verus!
