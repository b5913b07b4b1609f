# wsm

A workspace manager for issue-driven work: for a repository cloned with
ghq it opens and removes Workspaces — `main` (the clone) or one git worktree
per issue on a `feature/<id>` branch — each with a tmux or herdr session and,
on request, devcontainers. Issues and repo-groups come from tracker plugins
(two GitHub plugins are included).

The library is verified with Verus: every public function states what it
returns in its `ensures`, over spec functions on `Seq<char>` and the views
of the library's types, and the laws of the library stand as public proof
functions.

## Layout

- `src/` — the verified library
  - `text`, `json`: character-level text operations and JSON values
    (documents are read with serde_json behind one trusted reader)
  - `domains`: repository ids, Workspace ids, paths, branch and session names
  - `settings`: the settings file (managers, trackers, custom repositories)
  - `repostore`: the store of local clones (`ghq` and `[[repo]]`)
  - `tracker`: the tracker plugin contract as the server reads it
  - `worktree`, `session`, `devcontainer`: the arguments of git, tmux/herdr
    and docker/devcontainer, and what their answers mean
  - `usecases`, `cli`: the rows and messages of the JSON API (made from
    the facts the caller gathered), and its arguments
  - `workflow`: `open` as a step function (worktree, then session, then
    each devcontainer; it stops at the first failure) and `remove` as a
    plan of commands (sessions, then containers, then the worktree)
  - `github`: the two GitHub tracker plugins (verbs, and what GitHub's
    answers become)
  - `wsm_core`: the github.com-only core (names, paths, gh and ghq answers)
- `tests/` — scenarios and the laws on concrete values
- `app/` — the programs: the JSON API server and the plugins, which run the
  tools, read the machine and print what the library answers

The github.com-only `wsm-core` command-line program is not built here: its
entry point and its commands rest on a `settings` module of its own that is
not part of this project. What it computes (names, paths, what `gh` and
`ghq` answer) stands in `wsm_core`, and its use cases are served by the
JSON API server.
