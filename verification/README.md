# stackenv

The logic of `stack`, a native, zero-container manager of development environments, as a
verified library, and the program around it.

- `src/` is the library. It decides and computes. Its functions have contracts, which Verus proves;
  those of the calls into other crates it takes as given (see below). The library does not touch
  files, processes or the network: what the machine says comes in as arguments, and what is to be
  done or shown comes out as values.
- `app/` is the program: the command line, the files under `~/.stack`, processes, ports, prompts
  and downloads.
- `tests/` holds the tests of the library.

## The library

| Module | What it holds |
| --- | --- |
| `manifest`, `manifest_edit` | `stack.toml`: its values and defaults, and adding and removing entries |
| `placeholder` | `{NAME}` placeholders in commands and ports |
| `state`, `registry`, `projects`, `trust` | what is kept under `~/.stack` |
| `process`, `words` | the commands that are spawned, and the records of them |
| `toolchain`, `pinned`, `platform` | binaries of languages, version managers, operating systems |
| `caddy` | the routes that Caddy is given |
| `shell` | the shell hook |
| `commands` | the subcommands: starting and stopping projects, sharing services, profiles, the registry, scaffolding, diagnosis |
| `text`, `ordered_map`, `location`, `output`, `style` | strings, maps in key order, paths, lines of output, colours |
| `data`, `plain_toml` | JSON and TOML values, and TOML texts that are read as they are written |

A few functions of other crates are taken at their word. They stand in `data`, `words`, `style`,
`text` and `commands::shell_integration`, each with a comment that says what is claimed of it.
