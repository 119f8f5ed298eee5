# ucrun

An OCI runtime that launches ops/nanovm unikernels next to `crun`, with its
decisions written in Verus and proved.

- `src/` — the verified library:
  - `text`: character-level operations (`split`, `split_whitespace`, substring
    search, character removal) proved against spec functions;
  - `schema`: the runtime parameters and the parts of an OCI `config.json` it reads;
  - `config`: where a container's `config.json` lives, and the runtime
    parameters read from its index file (JSON through serde_json);
  - `env`: reading `KEY=value` entries from a container's environment;
  - `create`, `delete`, `start`: the decisions of the three commands the runtime
    serves itself (privilege check, kill plan, `ops` command line);
  - `cli`: which handler serves a subcommand, and the log level.
- `app/` — the program: argument parsing, files, processes and logging.
- `tests/` — tests of the library on concrete values.
