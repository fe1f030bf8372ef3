# co

`co` is the command-line client for co.codes: device login, repositories,
human-approved agent access, agent publishing, the Git credential helper and
job-running machines.

The decisions the client makes are a verified Verus library under `src/`:

- `text`: string helpers with exact specifications (splitting, trimming,
  decimal and integer parsing).
- `repo`: repository names, Git URLs, shell quoting, clone and link commands.
- `config`: the configuration model and every update the commands make to it.
- `cli`: argument parsing and command routing.
- `credential`: the Git credential protocol and the helper's scope.
- `access`: agent access requests, polling and back-off.
- `agent`: the push grant that `CO_AGENT_ID` selects, agent-mode credentials
  and commit attestation.
- `api`: API error messages, the device flow and the clock.
- `machine`, `runner`, `workflow`: machine enrollment, heartbeats and jobs.

`app/` is the executable: it reads arguments, the environment, files, the
terminal and the network, and hands plain values to the library.
