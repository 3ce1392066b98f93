# mentisdbd

The headless MentisDB daemon, with its decisions written in Verus and proved.

- `src/` is the verified library: the command line, the switches in the environment,
  the JSON-RPC requests and replies over standard input and output, the proxy to a
  running daemon, the stages of a run, the migrations, the update check, the exit
  codes and the set-up of telemetry. It does no input or output. Where the program
  has to do something first, the library says what, and takes the outcome as a value.
- `app/` is the program: it reads the environment, talks to the network and the
  memory service, and does what the library says.
- `tests/` runs the library on examples.

JSON values are those of `serde_json`. What each of its functions is taken to do is
written down in `src/json.rs`, and nothing else is assumed.

The program embeds `MENTISDB_SKILL.md`, the operating skill of MentisDB, from the
root of the project.
