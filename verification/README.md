# gtmcli

The logic of `gtm`, a command-line tool for the Google Tag Manager API v2,
as a verified library, with the command-line side around it.

- `src/` — the library, each function with its contract:
  - `json` — the JSON document the tool works on, its model, and the calls into serde_json
  - `error` — errors, exit codes, and the error report (JSON when piped, text with hints on a terminal)
  - `output` — output formats, list-response unwrapping, compact lines, the deletion notice
  - `explain`, `explain_report`, `refs` — `gtm explain`: triggers, conditions, sharing tags,
    referenced variables, and its JSON and table output
  - `variables`, `zones`, `destinations`, `agent`, `doctor` — the commands' arguments and decisions
  - `text` — text helpers (substring search, exact comparison, decimal numbers)
  - `laws` — properties of the library that span functions
- `tests/` — tests on concrete values
- `app/` — argument parsing (clap), API calls, printing and exit, around the library
