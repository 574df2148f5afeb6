# timetracker

A desktop time tracker's core, verified with Verus.  It watches which window
is in front, attributes it to a registered project (by executable path,
window title or folder name) and to a Jira issue (from the git branch),
records one session per (project, branch) pair while tracking runs, records
Slack Huddle calls, merges adjacent sessions for review and builds the
worklogs published to Jira.

- `src/` is the verified library.  `recorder` and `huddle_monitor` hold the
  decisions of the recording loops, `attribution` and `git_probe` the
  attribution rules, `jira_client` the worklog and REST request rules,
  `activity_monitor` the tracking state machine.  Calls into `chrono`,
  `regex`, `base64` and `semver` stand behind small trusted wrappers whose
  contracts name what those crates return.
- `app/` is the shell: SQLite storage, the background threads, HTTP, and the
  commands a UI calls.
- `tests/` exercises the library on concrete values.
