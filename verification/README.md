# tsa

A command-line tool for managing a Tailscale network (devices, tags,
tailnet lock signing, users, contacts), whose logic is a library verified
with Verus.

- `src/` — the verified library: device and user matching (`matching`),
  tag arithmetic (`tags`), the interactive selection syntax (`selection`),
  the pager (`pager`), table layouts (`table`, `layouts`), the API
  requests (`api`), the command line as plain values (`cli`), and the
  commands that change the tailnet as state machines (`commands`, `jobs`,
  `user_jobs`).
- `app/` — the program around it: argument parsing, HTTP, JSON, prompts
  and terminal output. It performs the actions that the library's state
  machines call for and hands back what happened.
- `tests/` — tests of the library.
