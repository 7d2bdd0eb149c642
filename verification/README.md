# gitlab_cli

A command-line client for the GitLab API (artifacts download, job triggering,
generic package registry), whose logic is a library verified with Verus.

- `src/` — the verified library: percent-encoded request URLs, JSON request
  bodies, `KEY=VALUE` parsing, token and configuration resolution, the reading
  of API answers, and the state machines that drive the job commands and the
  package upload, each with its contract and the laws they keep.
- `tests/` — tests of the library on concrete values.
- `app/` — the program: argument parsing (clap), logging (tracing), HTTP
  (reqwest), JSON decoding of answers (serde), files and zip extraction. It
  performs the requests that the library decides and reports what came back.
