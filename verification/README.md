# careerbot

A local job-monitoring daemon: per-company collector scripts written by an
LLM agent, an hourly scheduler, desktop notifications, and a command line.

## Layout

- `src/` — the library, verified with Verus. Every decision the program
  makes lives here with a contract: the configuration model and its
  dotted keys, the data and state paths, collector selection, the agent
  loop's bookkeeping, the tool catalogue and tool-call parsing, the MCP
  JSON-RPC routing, the daemon's HTTP response parsing, the scheduler's
  company discovery, timing and notifications, and the command-line
  replies.
- `app/` — the program around it: argument parsing, files, the SQLite
  store, HTTP, the Unix socket server and client, processes and timers.
  It hands plain values to the library and acts on what comes back.
  Installed as `ingestor` (or `job-ingestor`) or `notifier`, the same
  binary runs the ingestion service (careers API to Postgres and a Redis
  stream) or the notification service (stream to e-mail), configured by
  `DATABASE_URL`, `MQUEUE_URL`, `STREAM_KEY_JOBS` and, for e-mail,
  `SENDGRID_API_KEY` and `NOTIFIER_FROM_ADDRESS`.
- `tests/` — tests of the library on concrete values.

## Modules

| Module | Contents |
| --- | --- |
| `config` | `config.toml` as a sorted tree of tables; get, set, unset, list; its TOML text and CLI value literals |
| `paths` | data and state roots, derived files, socket location |
| `collector` | collector identifiers and configured-name loading |
| `agent`, `anthropic`, `subprocess` | run results and errors, the messages-API loop and its first message (PDF attachments as base64 `document` blocks), the subprocess driver |
| `tool_dispatch`, `json` | tool catalogue, its JSON presentation, tool-call parsing, JSON string literals |
| `mcp` | JSON-RPC routing and responses of the stdio server |
| `ipc_client`, `daemon` | daemon request head, response parsing, liveness, socket handling |
| `scheduler`, `notifications` | company discovery, tick timing, the tick plan (run record, one notification when there are new jobs, one audit row per job), notification text |
| `commands`, `cli`, `runtime`, `prompts` | command inputs and the agent runs they request (resume to profile, new company to collector), outputs, replies; driver selection; the system prompts |
| `tools` | tool errors, company-name checks, the record lines of a collector script's output |
| `messaging`, `stream`, `database`, `ingest` | Redis stream handles, the ingestion store factory, job records, duplicate inserts, delivery fan-out and alert e-mail text |

## Environment

The program reads its roots from `$HOME`, `$XDG_DATA_HOME`,
`$XDG_STATE_HOME` and, on Linux, `$XDG_RUNTIME_DIR` (the socket). Two
agent settings that are not in `config.toml` come from the environment:
`$CAREERBOT_DEFAULT_MODEL` is the model used when
`agent.anthropic_api.model` is unset, and `$CAREERBOT_AGENT_BIN` is the
agent CLI that `agent.driver = claude_code` runs.
