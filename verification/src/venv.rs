//! Python virtual environments inside a working directory.

use vstd::prelude::*;
use crate::bash::BashCall;
use crate::text::{debug_path, debug_str, join_path, path_debug, path_join, str_debug};

verus! {

/// Where the environment's `activate` script lies for a working directory.
pub open spec fn activate_path(directory: Seq<char>) -> Seq<char> {
    path_join(path_join(directory, ".venv"@), "bin/activate"@)
}

/// The `activate` script lies at `.venv/bin/activate` under the directory.
pub proof fn lemma_activate_path(directory: Seq<char>)
    ensures
        activate_path(directory) == path_join(directory, ".venv/bin/activate"@),
{
    reveal_strlit(".venv");
    reveal_strlit("bin/activate");
    reveal_strlit(".venv/bin/activate");
    crate::text::lemma_join_nested(directory, ".venv"@, "bin/activate"@);
    assert(".venv"@ + seq!['/'] + "bin/activate"@ =~= ".venv/bin/activate"@);
}

/// The command that creates the environment and sources it.
pub open spec fn creation_command(directory: Seq<char>, activate: Seq<char>) -> Seq<char> {
    "cd "@ + str_debug(directory) + " && "@ + str_debug("python3"@)
        + " -m venv --upgrade-deps "@ + path_debug(path_join(directory, ".venv"@))
        + " && source "@ + path_debug(activate)
}

/// The command that runs `command` inside the environment.
pub open spec fn venv_command(directory: Seq<char>, activate: Seq<char>, command: Seq<char>) -> Seq<
    char,
> {
    "cd "@ + str_debug(directory) + " && source "@ + str_debug(activate) + " && bash -c "@
        + str_debug(command)
}

/// A virtual environment in `directory` (the caller creates the directory).
pub struct Venv {
    pub directory: String,
    pub activate: String,
}

impl Venv {
    /// The environment for the working directory `path`.
    pub fn new(path: &str) -> (r: Venv)
        ensures
            r.directory@ == path@,
            r.activate@ == activate_path(path@),
    {
        let venv_path = join_path(path, ".venv");
        let activate = join_path(venv_path.as_str(), "bin/activate");
        Venv { directory: path.to_owned(), activate }
    }

    /// The call that creates the environment with `python3 -m venv`.
    pub fn creation_call(&self) -> (r: BashCall)
        ensures
            r.command@ == creation_command(self.directory@, self.activate@),
            !r.verify_command,
    {
        let venv_path = join_path(self.directory.as_str(), ".venv");
        let mut c = "cd ".to_owned();
        c.append(debug_str(self.directory.as_str()).as_str());
        c.append(" && ");
        c.append(debug_str("python3").as_str());
        c.append(" -m venv --upgrade-deps ");
        c.append(debug_path(venv_path.as_str()).as_str());
        c.append(" && source ");
        c.append(debug_path(self.activate.as_str()).as_str());
        BashCall { command: c, verify_command: false }
    }

    /// The call that runs `command` with the environment activated.
    pub fn bash(&self, command: &str, verify_command: bool) -> (r: BashCall)
        ensures
            r.command@ == venv_command(self.directory@, self.activate@, command@),
            r.verify_command == verify_command,
    {
        let mut c = "cd ".to_owned();
        c.append(debug_str(self.directory.as_str()).as_str());
        c.append(" && source ");
        c.append(debug_str(self.activate.as_str()).as_str());
        c.append(" && bash -c ");
        c.append(debug_str(command).as_str());
        BashCall { command: c, verify_command }
    }
}

} // verus!
