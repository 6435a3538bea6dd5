# glp

A command-line tool for monitoring and debugging GitLab CI/CD pipelines
(`glp status`, `glp jobs <id>`, `glp log <id> [--tail N]`, `glp retry <id>`).

The crate is in two parts:

- `src/` is a library verified with Verus. It resolves the configuration
  (token, host and project, from the environment, the git remote and glab's
  configuration file), builds the API paths and URLs, reads the status of API
  answers, finds the ref or commit to report on, picks the pipeline, reads a
  retry answer, selects the tail of a log, and makes every line of text that
  the tool prints. Each public function states its result exactly in its
  contract.
- `app/` is the program around it: command-line parsing, environment,
  running `git`, reading files, HTTP requests, JSON and YAML parsing, and
  colours.

Modules of the library: `config`, `client`, `commands` (`status`, `jobs`,
`log`, `retry`), `models`, `output`, `error`, `json`, `git`, `encoding`,
`url_parts`, `text`.
