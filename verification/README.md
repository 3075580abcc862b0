# rusted

A small developer command-line helper (git shortcuts, ssh/scp to cluster
hosts picked by regular expression from a TOML configuration, and a local
Ollama session in a throw-away Python virtual environment).

- `src/` is the library, written in Verus: configuration tables and lookups
  (`value`, `config`), shell command construction (`bash`, `venv`, `ssh`,
  `ai`), random alphanumeric names from random bytes (`rand`), and the plan
  of steps each subcommand carries out (`cli`). Each public function has a
  contract that Verus proves.
- `app/` is the program around it: argument parsing, reading the
  configuration file and `/dev/urandom`, running the planned shell commands,
  and the Python extension module.
- `tests/` exercises the library on concrete values.
