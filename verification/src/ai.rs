//! A local Ollama server run from a throw-away virtual environment.

use vstd::prelude::*;
use crate::bash::BashCall;
use crate::text::{join_path, path_join};
use crate::venv::{activate_path, venv_command, Venv};

verus! {

/// The command that starts the server in the background.
pub open spec fn serve_command() -> Seq<char> {
    "ollama serve > ~/.ollama-serve.log 2>&1 &"@
}

/// The command that gives the server a second to start and then runs
/// `ollama <ollama_command>`.
pub open spec fn client_command(ollama_command: Seq<char>) -> Seq<char> {
    "sleep 1; ollama "@ + ollama_command
}

/// The command that stops the server.
pub open spec fn kill_command() -> Seq<char> {
    "killall -9 ollama; killall -9 ollama_llama_server"@
}

/// An Ollama session whose environment lives in its own temporary directory.
pub struct Ollama {
    venv: Venv,
}

impl Ollama {
    /// The session's environment, as a value.
    pub closed spec fn environment(&self) -> Venv {
        self.venv
    }

    /// The session whose directory is `random_name` inside `temp_dir`.
    pub fn new(temp_dir: &str, random_name: &str) -> (r: Ollama)
        ensures
            r.environment().directory@ == path_join(temp_dir@, random_name@),
            r.environment().activate@ == activate_path(path_join(temp_dir@, random_name@)),
    {
        let new_temp_dir = join_path(temp_dir, random_name);
        Ollama { venv: Venv::new(new_temp_dir.as_str()) }
    }

    /// The session's environment.
    pub fn venv(&self) -> (r: &Venv)
        ensures
            *r == self.environment(),
    {
        &self.venv
    }

    /// The calls that start the server and then run `ollama <ollama_command>`,
    /// both inside the environment and without confirmation.
    pub fn run(&self, ollama_command: &str) -> (r: Vec<BashCall>)
        ensures
            r@.len() == 2,
            r@[0].command@ == venv_command(
                self.environment().directory@,
                self.environment().activate@,
                serve_command(),
            ),
            r@[1].command@ == venv_command(
                self.environment().directory@,
                self.environment().activate@,
                client_command(ollama_command@),
            ),
            !r@[0].verify_command && !r@[1].verify_command,
    {
        let mut calls: Vec<BashCall> = Vec::new();
        let serve = "ollama serve > ~/.ollama-serve.log 2>&1 &";
        calls.push(self.venv.bash(serve, false));
        let mut client = "sleep 1; ollama ".to_owned();
        client.append(ollama_command);
        calls.push(self.venv.bash(client.as_str(), false));
        calls
    }

    /// The call that stops the server when the session ends.
    pub fn shutdown_call(&self) -> (r: BashCall)
        ensures
            r.command@ == venv_command(self.environment().directory@, self.environment().activate@, kill_command()),
            !r.verify_command,
    {
        self.venv.bash("killall -9 ollama; killall -9 ollama_llama_server", false)
    }
}

} // verus!
