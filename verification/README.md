# knack

The rules behind `knack`, a skill manager for agents, written in Verus: which copy of a skill is
real, which version is the latest, what a publish may push, which runs are still open.

- `src/` is the library. Everything in it is verified; what it takes from other crates stands behind
  small wrappers whose contracts are stated and not proved (`clock`, `diff`, `json`, `registry`,
  `utf8`, `yaml`).
- `tests/` runs the library.
- `app/` is the program around it: arguments, files, git, the network and the terminal.

Where a command alternates decisions and outside work, the library holds the decisions as a step
function, from where the command stands and what was just found to where it goes and what to do next
(`publish`, `cloud_run`, `github_run`, `skill_status`, `init`), and the program carries the steps out.

Paths are posix paths held as text.
