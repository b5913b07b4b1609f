//! The devcontainer role (devcontainers/cli and docker). A container is
//! known by its Docker labels: `wsm.ns-repo`, `wsm.issue-id`, `wsm.config`.
//! The library builds the arguments and reads the answers of docker and
//! the devcontainer CLI; running them is the caller's.
use vstd::prelude::*;
use crate::text::{chars_of, lines, lines_of, nonempty_lines, nonempty_lines_of, string_of, strip_prefix, strip_suffix, trim, views};
use crate::json::{array_items, json_of_text, parse_json, str_field, Json};
use crate::domains::{ns_repo_text, path_join, join_path, RepoRef, WorkspaceId};
use crate::settings::{message, opt_text};
use crate::tracker::string_views;

verus! {

/// What `up` did, decided by the state before it: a container was
/// created, a stopped one started, or a running one reused.
#[derive(Clone, Copy, Debug, PartialEq, Eq, Structural)]
pub enum Outcome {
    Created,
    Started,
    Reused,
}

/// The word of an outcome.
pub open spec fn outcome_label(o: Outcome) -> Seq<char> {
    match o {
        Outcome::Created => "created"@,
        Outcome::Started => "started"@,
        Outcome::Reused => "reused"@,
    }
}

impl Outcome {
    /// The word of the outcome, as the open message shows it.
    pub fn label(self) -> (s: &'static str)
        ensures
            s@ == outcome_label(self),
    {
        match self {
            Outcome::Created => "created",
            Outcome::Started => "started",
            Outcome::Reused => "reused",
        }
    }
}

/// Some of the lines is this text.
pub open spec fn has_line(ls: Seq<Seq<char>>, line: Seq<char>) -> bool {
    exists|i: int| 0 <= i < ls.len() && ls[i] == line
}

/// Some of the lines is not empty.
pub open spec fn has_nonempty_line(ls: Seq<Seq<char>>) -> bool {
    exists|i: int| 0 <= i < ls.len() && ls[i].len() > 0
}

/// The state of the containers of a Workspace from the `State` column that
/// `docker ps` printed: `running` if any runs, `stopped` if any exists,
/// `none` otherwise (also when docker failed).
pub open spec fn state_text(output: Option<Seq<char>>) -> Seq<char> {
    match output {
        Some(out) => if has_line(lines(out), "running"@) {
            "running"@
        } else if has_nonempty_line(lines(out)) {
            "stopped"@
        } else {
            "none"@
        },
        None => "none"@,
    }
}

/// The joint state of the containers of a Workspace (running / stopped /
/// none), from what `docker ps -a --format {{.State}}` printed.
pub fn state(output: Option<&str>) -> (s: &'static str)
    ensures
        s@ == state_text(opt_text(output)),
{
    let out = match output {
        Some(o) => o,
        None => return "none",
    };
    let ls = lines_of(&chars_of(out));
    let ghost lv = views(ls@);
    let mut running = false;
    let mut nonempty = false;
    let mut i: usize = 0;
    while i < ls.len()
        invariant
            i <= ls@.len(),
            lv == views(ls@),
            running == exists|k: int| 0 <= k < i && lv[k] == "running"@,
            nonempty == exists|k: int| 0 <= k < i && lv[k].len() > 0,
        decreases ls.len() - i,
    {
        assert(lv[i as int] == ls@[i as int]@);
        if crate::text::str_eq(string_of(&ls[i]).as_str(), "running") {
            running = true;
        }
        if ls[i].len() > 0 {
            nonempty = true;
        }
        i = i + 1;
    }
    if running {
        "running"
    } else if nonempty {
        "stopped"
    } else {
        "none"
    }
}

/// The containers to remove when a Workspace goes: the ids `docker ps`
/// listed (none when it failed). Each is removed with `docker rm -f`,
/// which keeps `down` idempotent.
pub fn down(output: Option<&str>) -> (r: Vec<String>)
    ensures
        string_views(r@) == match opt_text(output) {
            Some(out) => nonempty_lines(lines(out), lines(out).len()),
            None => Seq::<Seq<char>>::empty(),
        },
{
    nonempty_lines_of(output)
}

/// The arguments that remove one container.
pub fn remove_args(cid: &str) -> (r: Vec<String>)
    ensures
        string_views(r@) == seq!["rm"@, "-f"@, cid@],
{
    let r = vec!["rm".to_owned(), "-f".to_owned(), cid.to_owned()];
    assert(string_views(r@) =~= seq!["rm"@, "-f"@, cid@]);
    r
}

/// The arguments of a `docker ps` that filters by the Workspace's labels
/// (and the config's, when given), with a `--format` when one is given.
pub open spec fn labels_args_text(
    ns_repo: Seq<char>,
    id: Seq<char>,
    cname: Option<Seq<char>>,
    subcmd: Seq<char>,
    mode: Seq<char>,
    format: Seq<char>,
) -> Seq<Seq<char>> {
    seq![subcmd, mode, "--filter"@, "label=wsm.ns-repo="@ + ns_repo, "--filter"@, "label=wsm.issue-id="@ + id]
        + match cname {
        Some(c) => seq!["--filter"@, "label=wsm.config="@ + c],
        None => Seq::empty(),
    } + if format.len() > 0 {
        seq!["--format"@, format]
    } else {
        Seq::empty()
    }
}

fn prefixed(prefix: &str, rest: &str) -> (r: String)
    ensures
        r@ == prefix@ + rest@,
{
    message(prefix, &chars_of(rest))
}

/// The arguments of a `docker ps` filtered by the labels of a Workspace.
pub fn labels_args(
    ns_repo: &str,
    id: &str,
    cname: Option<&str>,
    subcmd: &str,
    mode: &str,
    format: &str,
) -> (r: Vec<String>)
    ensures
        string_views(r@) == labels_args_text(ns_repo@, id@, opt_text(cname), subcmd@, mode@, format@),
{
    let mut r = vec![
        subcmd.to_owned(),
        mode.to_owned(),
        "--filter".to_owned(),
        prefixed("label=wsm.ns-repo=", ns_repo),
        "--filter".to_owned(),
        prefixed("label=wsm.issue-id=", id),
    ];
    let ghost base = string_views(r@);
    let ghost cpart = match opt_text(cname) {
        Some(c) => seq!["--filter"@, "label=wsm.config="@ + c],
        None => Seq::<Seq<char>>::empty(),
    };
    if let Some(c) = cname {
        r.push("--filter".to_owned());
        r.push(prefixed("label=wsm.config=", c));
    }
    assert(string_views(r@) =~= base + cpart);
    let ghost with_c = string_views(r@);
    if chars_of(format).len() > 0 {
        r.push("--format".to_owned());
        r.push(format.to_owned());
        assert(string_views(r@) =~= with_c + seq!["--format"@, format@]);
    } else {
        assert(string_views(r@) =~= with_c + Seq::<Seq<char>>::empty());
    }
    r
}

/// The arguments of the `docker ps` that gives the joint state of a
/// Workspace's containers.
pub fn state_args(repo: &RepoRef, id: &str) -> (r: Vec<String>)
    ensures
        string_views(r@) == labels_args_text(ns_repo_text(repo@), id@, None, "ps"@, "-a"@, "{{.State}}"@),
{
    labels_args(repo.ns_repo().as_str(), id, None, "ps", "-a", "{{.State}}")
}

/// The arguments of the `docker ps` that lists a Workspace's containers
/// (for `down`).
pub fn down_args(repo: &RepoRef, id: &str) -> (r: Vec<String>)
    ensures
        string_views(r@) == labels_args_text(ns_repo_text(repo@), id@, None, "ps"@, "-a"@, "{{.ID}}"@),
{
    labels_args(repo.ns_repo().as_str(), id, None, "ps", "-a", "{{.ID}}")
}

/// The `wsm.config` label of a config: `repo` for the primary config of the
/// Workspace, `repo-<name>` for `.devcontainer/<name>/devcontainer.json`,
/// `default` for any other place.
pub open spec fn config_name_text(workspace: Seq<char>, config_path: Seq<char>) -> Seq<char> {
    if config_path == workspace + "/.devcontainer/devcontainer.json"@
        || config_path == workspace + "/.devcontainer.json"@ {
        "repo"@
    } else {
        match strip_prefix(config_path, workspace + "/.devcontainer/"@) {
            Some(rest) => match strip_suffix(rest, "/devcontainer.json"@) {
                Some(name) => if name.len() > 0 {
                    "repo-"@ + name
                } else {
                    "default"@
                },
                None => "default"@,
            },
            None => "default"@,
        }
    }
}

/// The `wsm.config` label of a config, from where its `devcontainer.json`
/// lies relative to the Workspace.
pub fn config_name(workspace: &str, config_path: &str) -> (s: String)
    ensures
        s@ == config_name_text(workspace@, config_path@),
{
    let ws = chars_of(workspace);
    let cfg = chars_of(config_path);
    let mut nested = crate::text::copy_chars(&ws);
    crate::text::append_chars(&mut nested, &chars_of("/.devcontainer/devcontainer.json"));
    let mut flat = crate::text::copy_chars(&ws);
    crate::text::append_chars(&mut flat, &chars_of("/.devcontainer.json"));
    if crate::text::chars_eq(&cfg, &nested) || crate::text::chars_eq(&cfg, &flat) {
        return "repo".to_owned();
    }
    let mut dir = crate::text::copy_chars(&ws);
    crate::text::append_chars(&mut dir, &chars_of("/.devcontainer/"));
    match crate::text::strip_prefix_chars(&cfg, &dir) {
        Some(rest) => match crate::text::strip_suffix_chars(&rest, &chars_of("/devcontainer.json")) {
            Some(name) => if name.len() > 0 {
                message("repo-", &name)
            } else {
                "default".to_owned()
            },
            None => "default".to_owned(),
        },
        None => "default".to_owned(),
    }
}

/// The state of the container of one config, from the first line that
/// `docker ps` printed: running, stopped, or none.
pub open spec fn config_state_text(output: Option<Seq<char>>) -> Option<Seq<char>> {
    match output {
        Some(out) => if lines(out).len() > 0 && lines(out)[0] == "running"@ {
            Some("running"@)
        } else if lines(out).len() > 0 && lines(out)[0].len() > 0 {
            Some("stopped"@)
        } else {
            None
        },
        None => None,
    }
}

/// The state of the container of one config (`Some("running")`,
/// `Some("stopped")`, or none), for the outcome of `up`.
pub fn state_for_config(output: Option<&str>) -> (r: Option<&'static str>)
    ensures
        match r {
            Some(s) => config_state_text(opt_text(output)) == Some(s@),
            None => config_state_text(opt_text(output)) is None,
        },
{
    let out = match output {
        Some(o) => o,
        None => return None,
    };
    let ls = lines_of(&chars_of(out));
    proof {
        assert(views(ls@).len() == ls@.len());
    }
    if ls.len() == 0 {
        return None;
    }
    assert(views(ls@)[0] == ls@[0]@);
    if crate::text::str_eq(string_of(&ls[0]).as_str(), "running") {
        Some("running")
    } else if ls[0].len() > 0 {
        Some("stopped")
    } else {
        None
    }
}

/// The arguments of the `docker ps` that gives the state of one config's
/// container.
pub fn config_state_args(repo: &RepoRef, id: &str, cname: &str) -> (r: Vec<String>)
    ensures
        string_views(r@) == labels_args_text(ns_repo_text(repo@), id@, Some(cname@), "ps"@, "-a"@, "{{.State}}"@),
{
    labels_args(repo.ns_repo().as_str(), id, Some(cname), "ps", "-a", "{{.State}}")
}

/// The outcome of `up` by the state of the config's container before it.
pub open spec fn outcome_of(before: Option<Seq<char>>) -> Outcome {
    match before {
        Some(s) => if s == "running"@ {
            Outcome::Reused
        } else {
            Outcome::Started
        },
        None => Outcome::Created,
    }
}

/// What starting one devcontainer answers: the CLI must be installed and
/// the config must exist; then the outcome follows the state before, if
/// the CLI succeeded.
pub open spec fn up_result(
    installed: bool,
    config_exists: bool,
    config_path: Seq<char>,
    before: Option<Seq<char>>,
    succeeded: bool,
) -> Result<Outcome, Seq<char>> {
    if !installed {
        Err("devcontainer CLI not installed"@)
    } else if !config_exists {
        Err("Config not found: "@ + config_path)
    } else if !succeeded {
        Err("devcontainer up failed"@)
    } else {
        Ok(outcome_of(before))
    }
}

/// Starts one devcontainer, idempotently: given whether the CLI is
/// installed, whether the config exists, the state of its container before
/// (`state_for_config`) and whether `devcontainer up` succeeded, the
/// outcome or the error. An existing container is never removed, so what
/// was done in it stays.
pub fn up(
    installed: bool,
    config_exists: bool,
    config_path: &str,
    before: Option<&str>,
    succeeded: bool,
) -> (r: Result<Outcome, String>)
    ensures
        match r {
            Ok(o) => up_result(installed, config_exists, config_path@, opt_text(before), succeeded) == Ok::<Outcome, Seq<char>>(o),
            Err(e) => up_result(installed, config_exists, config_path@, opt_text(before), succeeded) == Err::<Outcome, Seq<char>>(e@),
        },
{
    if !installed {
        return Err("devcontainer CLI not installed".to_owned());
    }
    if !config_exists {
        return Err(prefixed("Config not found: ", config_path));
    }
    if !succeeded {
        return Err("devcontainer up failed".to_owned());
    }
    match before {
        Some(s) => if crate::text::str_eq(s, "running") {
            Ok(Outcome::Reused)
        } else {
            Ok(Outcome::Started)
        },
        None => Ok(Outcome::Created),
    }
}

/// What `Path::strip_prefix` leaves of `path` under `home` (the path itself
/// when it is not under `home`), as text.
pub uninterp spec fn home_relative_text(path: Seq<char>, home: Seq<char>) -> Seq<char>;

/// `path` relative to `home` with `Path::strip_prefix` (components, not
/// characters), or `path` itself when it is not under `home`. The contract
/// names the result; the component rules are std's.
#[verifier::external_body]
fn home_relative(path: &str, home: &str) -> (r: String)
    ensures
        r@ == home_relative_text(path@, home@),
{
    let p = std::path::Path::new(path);
    p.strip_prefix(home).unwrap_or(p).to_string_lossy().into_owned()
}

/// Where a host path under the home shows in a container:
/// `/workspaces/<path relative to home>` (the mount rule of
/// devcontainers/cli).
pub fn container_path(home: &str, path: &str) -> (r: String)
    ensures
        r@ == "/workspaces/"@ + home_relative_text(path@, home@),
{
    prefixed("/workspaces/", home_relative(path, home).as_str())
}

/// The arguments of `devcontainer up` once the container paths are known.
/// An issue Workspace (a worktree) also mounts the git common dir and
/// passes the container paths as `WSM_*` remote environment.
pub open spec fn up_args_text(
    ns_repo: Seq<char>,
    id: Seq<char>,
    main: bool,
    workspace: Seq<char>,
    config_path: Seq<char>,
    cname: Seq<char>,
    container_worktree: Seq<char>,
    container_common: Seq<char>,
) -> Seq<Seq<char>> {
    seq![
        "up"@,
        "--workspace-folder"@,
        workspace,
        "--config"@,
        config_path,
        "--id-label"@,
        "wsm.ns-repo="@ + ns_repo,
        "--id-label"@,
        "wsm.issue-id="@ + id,
        "--id-label"@,
        "wsm.config="@ + cname,
    ] + if main {
        Seq::empty()
    } else {
        seq![
            "--mount-git-worktree-common-dir"@,
            "--remote-env"@,
            "WSM_WORKTREE_PATH="@ + container_worktree,
            "--remote-env"@,
            "WSM_WORKTREE_COMMON_DIR="@ + container_common,
        ]
    }
}

/// The arguments of `devcontainer up` with the container paths of the
/// worktree and of the git common dir given.
pub fn up_args_with(
    repo: &RepoRef,
    id: &WorkspaceId,
    workspace: &str,
    config_path: &str,
    cname: &str,
    container_worktree: &str,
    container_common: &str,
) -> (r: Vec<String>)
    ensures
        string_views(r@) == up_args_text(
            ns_repo_text(repo@),
            id.text(),
            id is Main,
            workspace@,
            config_path@,
            cname@,
            container_worktree@,
            container_common@,
        ),
{
    let mut r = vec![
        "up".to_owned(),
        "--workspace-folder".to_owned(),
        workspace.to_owned(),
        "--config".to_owned(),
        config_path.to_owned(),
        "--id-label".to_owned(),
        prefixed("wsm.ns-repo=", repo.ns_repo().as_str()),
        "--id-label".to_owned(),
        prefixed("wsm.issue-id=", id.as_str()),
        "--id-label".to_owned(),
        prefixed("wsm.config=", cname),
    ];
    let ghost base = string_views(r@);
    match id {
        WorkspaceId::Main => {
            assert(string_views(r@) =~= base + Seq::<Seq<char>>::empty());
        },
        WorkspaceId::Issue(_) => {
            r.push("--mount-git-worktree-common-dir".to_owned());
            r.push("--remote-env".to_owned());
            r.push(prefixed("WSM_WORKTREE_PATH=", container_worktree));
            r.push("--remote-env".to_owned());
            r.push(prefixed("WSM_WORKTREE_COMMON_DIR=", container_common));
            assert(string_views(r@) =~= base + seq![
                "--mount-git-worktree-common-dir"@,
                "--remote-env"@,
                "WSM_WORKTREE_PATH="@ + container_worktree@,
                "--remote-env"@,
                "WSM_WORKTREE_COMMON_DIR="@ + container_common@,
            ]);
        },
    }
    r
}

/// The arguments of `devcontainer up` for a Workspace: its folder, the
/// config, the identity labels, and for a worktree the common dir
/// (`<clone>/.git`) and the `WSM_*` paths as the container sees them.
pub fn up_args(
    home: &str,
    clone_path: &str,
    repo: &RepoRef,
    id: &WorkspaceId,
    workspace: &str,
    config_path: &str,
    cname: &str,
) -> (r: Vec<String>)
    ensures
        string_views(r@) == up_args_text(
            ns_repo_text(repo@),
            id.text(),
            id is Main,
            workspace@,
            config_path@,
            cname@,
            "/workspaces/"@ + home_relative_text(workspace@, home@),
            "/workspaces/"@ + home_relative_text(path_join(clone_path@, ".git"@), home@),
        ),
{
    let worktree = container_path(home, workspace);
    let common_dir = string_of(&join_path(&chars_of(clone_path), &chars_of(".git")));
    let common = container_path(home, common_dir.as_str());
    up_args_with(repo, id, workspace, config_path, cname, worktree.as_str(), common.as_str())
}

/// The container id in what `docker ps -q` printed: its first line, when
/// it is not empty.
pub open spec fn container_id_text(output: Option<Seq<char>>) -> Option<Seq<char>> {
    match output {
        Some(out) => if lines(out).len() > 0 && lines(out)[0].len() > 0 {
            Some(lines(out)[0])
        } else {
            None
        },
        None => None,
    }
}

/// The id of the running container of a config, if any.
pub fn container_id(output: Option<&str>) -> (r: Option<String>)
    ensures
        match r {
            Some(c) => container_id_text(opt_text(output)) == Some(c@),
            None => container_id_text(opt_text(output)) is None,
        },
{
    let out = match output {
        Some(o) => o,
        None => return None,
    };
    let ls = lines_of(&chars_of(out));
    proof {
        assert(views(ls@).len() == ls@.len());
    }
    if ls.len() == 0 {
        return None;
    }
    assert(views(ls@)[0] == ls@[0]@);
    if ls[0].len() > 0 {
        Some(string_of(&ls[0]))
    } else {
        None
    }
}

/// The arguments of the `docker ps -q` that finds the running container of
/// one config.
pub fn container_id_args(repo: &RepoRef, id: &str, cname: &str) -> (r: Vec<String>)
    ensures
        string_views(r@) == labels_args_text(ns_repo_text(repo@), id@, Some(cname@), "ps"@, "-q"@, Seq::empty()),
{
    proof {
        reveal_strlit("");
    }
    labels_args(repo.ns_repo().as_str(), id, Some(cname), "ps", "-q", "")
}

/// The arguments of the `docker inspect` that prints a container's
/// devcontainer metadata.
pub fn inspect_args(cid: &str) -> (r: Vec<String>)
    ensures
        string_views(r@) == seq![
            "inspect"@,
            "--format"@,
            "{{index .Config.Labels \"devcontainer.metadata\"}}"@,
            cid@,
        ],
{
    let r = vec![
        "inspect".to_owned(),
        "--format".to_owned(),
        "{{index .Config.Labels \"devcontainer.metadata\"}}".to_owned(),
        cid.to_owned(),
    ];
    assert(string_views(r@) =~= seq![
        "inspect"@,
        "--format"@,
        "{{index .Config.Labels \"devcontainer.metadata\"}}"@,
        cid@,
    ]);
    r
}

/// The first `remoteUser` string among the first `n` metadata entries.
pub open spec fn remote_user_in(entries: Seq<Json>, n: nat) -> Option<Seq<char>>
    decreases n,
{
    if n == 0 || n > entries.len() {
        None
    } else {
        match remote_user_in(entries, (n - 1) as nat) {
            Some(u) => Some(u),
            None => str_field(entries[n - 1], "remoteUser"@),
        }
    }
}

/// The `remoteUser` of the devcontainer metadata `docker inspect` printed
/// (trimmed JSON array; the first entry that names one), if any.
pub open spec fn remote_user_text(output: Option<Seq<char>>) -> Option<Seq<char>> {
    match output {
        Some(out) => match json_of_text(trim(out)) {
            Some(v) => match array_items(v) {
                Some(entries) => remote_user_in(entries, entries.len()),
                None => None,
            },
            None => None,
        },
        None => None,
    }
}

/// The user the container is entered as (the metadata's `remoteUser`, so
/// that files keep the host user's ownership).
pub fn remote_user(output: Option<&str>) -> (r: Option<String>)
    ensures
        match r {
            Some(u) => remote_user_text(opt_text(output)) == Some(u@),
            None => remote_user_text(opt_text(output)) is None,
        },
{
    let out = match output {
        Some(o) => o,
        None => return None,
    };
    let trimmed = string_of(&crate::text::trim_chars(&chars_of(out)));
    assert(trimmed@ == trim(out@));
    let doc = parse_json(trimmed.as_str());
    assert(doc == json_of_text(trim(out@)));
    let entries = match &doc {
        Some(v) => match v.items() {
            Some(e) => e,
            None => return None,
        },
        None => return None,
    };
    assert(array_items(doc->0) == Some(entries@));
    let ghost rv = remote_user_text(opt_text(output));
    assert(rv == remote_user_in(entries@, entries@.len()));
    let mut i: usize = 0;
    while i < entries.len()
        invariant
            i <= entries@.len(),
            rv == remote_user_in(entries@, entries@.len()),
            rv == remote_user_text(opt_text(output)),
            remote_user_in(entries@, i as nat) is None,
        decreases entries.len() - i,
    {
        if let Some(u) = entries[i].str_at("remoteUser") {
            proof {
                lemma_first_user_stays(entries@, (i + 1) as nat, entries@.len(), u@);
            }
            return Some(u.to_owned());
        }
        i = i + 1;
    }
    None
}

proof fn lemma_first_user_stays(entries: Seq<Json>, n: nat, m: nat, u: Seq<char>)
    requires
        0 < n <= m <= entries.len(),
        remote_user_in(entries, n) == Some(u),
    ensures
        remote_user_in(entries, m) == Some(u),
    decreases m - n,
{
    if n < m {
        lemma_first_user_stays(entries, n, (m - 1) as nat, u);
    }
}

/// The command that enters a running container, from its id, the user to
/// enter as, the working directory as the container sees it, and the
/// shell.
pub open spec fn exec_command_text(cid: Seq<char>, user: Option<Seq<char>>, workdir: Seq<char>, shell: Seq<char>) -> Seq<char> {
    "docker exec -it"@ + match user {
        Some(u) => " --user '"@ + u + "'"@,
        None => Seq::empty(),
    } + " -w '"@ + workdir + "' '"@ + cid + "' "@ + shell
}

/// The command that enters a running container: `(container id, command)`,
/// none when no container of the config runs. `workdir` is the Workspace
/// as the container sees it.
pub fn exec_command_with(
    ps_output: Option<&str>,
    inspect_output: Option<&str>,
    workdir: &str,
    shell: &str,
) -> (r: Option<(String, String)>)
    ensures
        match r {
            Some((cid, command)) => container_id_text(opt_text(ps_output)) == Some(cid@)
                && command@ == exec_command_text(cid@, remote_user_text(opt_text(inspect_output)), workdir@, shell@),
            None => container_id_text(opt_text(ps_output)) is None,
        },
{
    let cid = match container_id(ps_output) {
        Some(c) => c,
        None => return None,
    };
    let user = remote_user(inspect_output);
    let mut cmd = chars_of("docker exec -it");
    let ghost head = cmd@;
    if let Some(u) = &user {
        crate::text::append_chars(&mut cmd, &chars_of(" --user '"));
        crate::text::append_chars(&mut cmd, &chars_of(u.as_str()));
        crate::text::append_chars(&mut cmd, &chars_of("'"));
    }
    let ghost uv = match user {
        Some(u) => Some(u@),
        None => None,
    };
    let ghost upart = match uv {
        Some(u) => " --user '"@ + u + "'"@,
        None => Seq::<char>::empty(),
    };
    assert(cmd@ =~= head + upart);
    crate::text::append_chars(&mut cmd, &chars_of(" -w '"));
    crate::text::append_chars(&mut cmd, &chars_of(workdir));
    crate::text::append_chars(&mut cmd, &chars_of("' '"));
    crate::text::append_chars(&mut cmd, &chars_of(cid.as_str()));
    crate::text::append_chars(&mut cmd, &chars_of("' "));
    crate::text::append_chars(&mut cmd, &chars_of(shell));
    assert(cmd@ =~= exec_command_text(cid@, uv, workdir@, shell@));
    Some((cid, string_of(&cmd)))
}

/// The command that enters a Workspace's running container, with the
/// working directory `/workspaces/<workspace relative to home>`.
pub fn exec_command(
    ps_output: Option<&str>,
    inspect_output: Option<&str>,
    home: &str,
    workspace: &str,
    shell: &str,
) -> (r: Option<(String, String)>)
    ensures
        match r {
            Some((cid, command)) => container_id_text(opt_text(ps_output)) == Some(cid@)
                && command@ == exec_command_text(
                cid@,
                remote_user_text(opt_text(inspect_output)),
                "/workspaces/"@ + home_relative_text(workspace@, home@),
                shell@,
            ),
            None => container_id_text(opt_text(ps_output)) is None,
        },
{
    let workdir = container_path(home, workspace);
    exec_command_with(ps_output, inspect_output, workdir.as_str(), shell)
}

// ---------------------------------------------------------------------------
// The configs of a Workspace
// ---------------------------------------------------------------------------

/// `a` sorts before `b`: lexicographic by character (which is the byte
/// order of their UTF-8 texts).
pub open spec fn text_less(a: Seq<char>, b: Seq<char>) -> bool
    decreases a.len(),
{
    if a.len() == 0 {
        b.len() > 0
    } else if b.len() == 0 {
        false
    } else if a[0] != b[0] {
        (a[0] as int) < (b[0] as int)
    } else {
        text_less(a.drop_first(), b.drop_first())
    }
}

/// Whether `a` sorts before `b`.
pub fn sorts_before(a: &[char], b: &[char]) -> (r: bool)
    ensures
        r == text_less(a@, b@),
{
    let mut i: usize = 0;
    assert(a@.skip(0) =~= a@);
    assert(b@.skip(0) =~= b@);
    while i < a.len() && i < b.len()
        invariant
            i <= a@.len(),
            i <= b@.len(),
            text_less(a@, b@) == text_less(a@.skip(i as int), b@.skip(i as int)),
        decreases a.len() - i,
    {
        let ghost sa = a@.skip(i as int);
        let ghost sb = b@.skip(i as int);
        assert(sa[0] == a@[i as int]);
        assert(sb[0] == b@[i as int]);
        if a[i] != b[i] {
            return a[i] < b[i];
        }
        assert(sa.drop_first() =~= a@.skip(i + 1));
        assert(sb.drop_first() =~= b@.skip(i + 1));
        i = i + 1;
    }
    i == a.len() && i < b.len()
}

/// `x` put into the sorted `s`: before the first element it sorts before.
pub open spec fn insert_sorted(s: Seq<Seq<char>>, x: Seq<char>) -> Seq<Seq<char>>
    decreases s.len(),
{
    if s.len() == 0 {
        seq![x]
    } else if text_less(x, s[0]) {
        seq![x] + s
    } else {
        seq![s[0]] + insert_sorted(s.drop_first(), x)
    }
}

/// The first `n` names in sorted order.
pub open spec fn sorted_names(names: Seq<Seq<char>>, n: nat) -> Seq<Seq<char>>
    decreases n,
{
    if n == 0 || n > names.len() {
        Seq::empty()
    } else {
        insert_sorted(sorted_names(names, (n - 1) as nat), names[n - 1])
    }
}

/// Puts `x` into the sorted list, before the first name it sorts before.
pub fn insert_name(sorted: &mut Vec<Vec<char>>, x: Vec<char>)
    ensures
        views(final(sorted)@) == insert_sorted(views(old(sorted)@), x@),
{
    let ghost s = views(sorted@);
    let mut i: usize = 0;
    assert(s.skip(0) =~= s);
    while i < sorted.len()
        invariant
            i <= sorted@.len(),
            s == views(sorted@),
            sorted@ == old(sorted)@,
            insert_sorted(s, x@) == s.take(i as int) + insert_sorted(s.skip(i as int), x@),
        decreases sorted.len() - i,
    {
        let ghost rest = s.skip(i as int);
        assert(rest[0] == sorted@[i as int]@);
        if sorts_before(&x, &sorted[i]) {
            let ghost xv = x@;
            sorted.insert(i, x);
            assert(views(sorted@) =~= s.take(i as int) + (seq![xv] + rest));
            return;
        }
        assert(rest.drop_first() =~= s.skip(i + 1));
        assert(s.take(i + 1) =~= s.take(i as int) + seq![rest[0]]);
        i = i + 1;
    }
    let ghost xv = x@;
    assert(s.skip(i as int) =~= Seq::<Seq<char>>::empty());
    assert(s.take(i as int) =~= s);
    sorted.push(x);
    assert(views(sorted@) =~= s.push(xv));
    assert(s + seq![xv] =~= s.push(xv));
}

/// The configs of a Workspace: the primary one (`repo`) when there is one,
/// then the named ones (`repo-<name>`) in name order.
pub open spec fn repo_configs_text(
    workspace: Seq<char>,
    nested_exists: bool,
    flat_exists: bool,
    names: Seq<Seq<char>>,
) -> Seq<(Seq<char>, Seq<char>)> {
    let primary: Seq<(Seq<char>, Seq<char>)> = if nested_exists {
        seq![("repo"@, path_join(workspace, ".devcontainer/devcontainer.json"@))]
    } else if flat_exists {
        seq![("repo"@, path_join(workspace, ".devcontainer.json"@))]
    } else {
        Seq::empty()
    };
    let sorted = sorted_names(names, names.len());
    primary + Seq::new(
        sorted.len(),
        |i: int| ("repo-"@ + sorted[i], path_join(path_join(path_join(workspace, ".devcontainer"@), sorted[i]), "devcontainer.json"@)),
    )
}

/// The devcontainer configs of a Workspace as `(config name, path)`, given
/// which primary files exist (`.devcontainer/devcontainer.json`,
/// `.devcontainer.json`) and the directories under `.devcontainer` that
/// hold a `devcontainer.json` (in any order).
pub fn repo_configs(workspace: &str, nested_exists: bool, flat_exists: bool, names: &[String]) -> (r: Vec<(String, String)>)
    ensures
        crate::worktree::string_pairs(r@) == repo_configs_text(
            workspace@,
            nested_exists,
            flat_exists,
            string_views(names@),
        ),
{
    let ws = chars_of(workspace);
    let ghost nv = string_views(names@);
    let mut sorted: Vec<Vec<char>> = Vec::new();
    let mut i: usize = 0;
    let n = names.len();
    assert(views(sorted@) =~= sorted_names(nv, 0));
    while i < n
        invariant
            i <= n,
            n == names@.len(),
            nv == string_views(names@),
            views(sorted@) == sorted_names(nv, i as nat),
        decreases n - i,
    {
        assert(nv[i as int] == names@[i as int]@);
        insert_name(&mut sorted, chars_of(names[i].as_str()));
        i = i + 1;
    }
    let ghost sv = views(sorted@);
    let mut out: Vec<(String, String)> = Vec::new();
    if nested_exists {
        out.push(("repo".to_owned(), string_of(&join_path(&ws, &chars_of(".devcontainer/devcontainer.json")))));
    } else if flat_exists {
        out.push(("repo".to_owned(), string_of(&join_path(&ws, &chars_of(".devcontainer.json")))));
    }
    let ghost primary = crate::worktree::string_pairs(out@);
    let dir = join_path(&ws, &chars_of(".devcontainer"));
    let mut k: usize = 0;
    while k < sorted.len()
        invariant
            k <= sorted@.len(),
            sv == views(sorted@),
            dir@ == path_join(workspace@, ".devcontainer"@),
            crate::worktree::string_pairs(out@) == primary + Seq::new(
                k as nat,
                |j: int| ("repo-"@ + sv[j], path_join(path_join(dir@, sv[j]), "devcontainer.json"@)),
            ),
        decreases sorted.len() - k,
    {
        assert(sv[k as int] == sorted@[k as int]@);
        let name = message("repo-", &sorted[k]);
        let path = join_path(&join_path(&dir, &sorted[k]), &chars_of("devcontainer.json"));
        let ghost before = crate::worktree::string_pairs(out@);
        let ghost f = |j: int| ("repo-"@ + sv[j], path_join(path_join(dir@, sv[j]), "devcontainer.json"@));
        out.push((name, string_of(&path)));
        assert(crate::worktree::string_pairs(out@) =~= before.push(f(k as int)));
        assert(Seq::new((k + 1) as nat, f) =~= Seq::new(k as nat, f).push(f(k as int)));
        assert(primary + Seq::new((k + 1) as nat, f) =~= (primary + Seq::new(k as nat, f)).push(f(k as int)));
        k = k + 1;
    }
    out
}


// ---------------------------------------------------------------------------
// Laws of the name order
// ---------------------------------------------------------------------------

proof fn lemma_less_irreflexive(a: Seq<char>)
    ensures
        !text_less(a, a),
    decreases a.len(),
{
    if a.len() > 0 {
        lemma_less_irreflexive(a.drop_first());
    }
}

proof fn lemma_less_transitive(a: Seq<char>, b: Seq<char>, c: Seq<char>)
    requires
        text_less(a, b),
        text_less(b, c),
    ensures
        text_less(a, c),
    decreases a.len(),
{
    if a.len() > 0 && b.len() > 0 && c.len() > 0 && a[0] == b[0] && b[0] == c[0] {
        lemma_less_transitive(a.drop_first(), b.drop_first(), c.drop_first());
    }
}

proof fn lemma_less_total(a: Seq<char>, b: Seq<char>)
    requires
        !text_less(a, b),
        !text_less(b, a),
    ensures
        a == b,
    decreases a.len(),
{
    if a.len() > 0 && b.len() > 0 {
        assert(a[0] == b[0]) by {
            if a[0] != b[0] {
                assert((a[0] as int) != (b[0] as int));
            }
        }
        lemma_less_total(a.drop_first(), b.drop_first());
        assert(a =~= seq![a[0]] + a.drop_first());
        assert(b =~= seq![b[0]] + b.drop_first());
    } else {
        assert(a.len() == 0 && b.len() == 0);
        assert(a =~= b);
    }
}

/// The names are in order: no name sorts before one that comes earlier.
pub open spec fn in_order(s: Seq<Seq<char>>) -> bool {
    forall|a: int, b: int| 0 <= a < b < s.len() ==> !text_less(#[trigger] s[b], #[trigger] s[a])
}

/// Where `insert_sorted` puts `x`.
pub open spec fn insert_position(s: Seq<Seq<char>>, x: Seq<char>) -> int
    decreases s.len(),
{
    if s.len() == 0 {
        0
    } else if text_less(x, s[0]) {
        0
    } else {
        1 + insert_position(s.drop_first(), x)
    }
}

proof fn lemma_insert_is_insert(s: Seq<Seq<char>>, x: Seq<char>)
    ensures
        0 <= insert_position(s, x) <= s.len(),
        insert_sorted(s, x) == s.insert(insert_position(s, x), x),
    decreases s.len(),
{
    if s.len() > 0 && !text_less(x, s[0]) {
        lemma_insert_is_insert(s.drop_first(), x);
        assert(insert_sorted(s, x) =~= s.insert(insert_position(s, x), x));
    } else if s.len() > 0 {
        assert(insert_sorted(s, x) =~= s.insert(0, x));
    } else {
        assert(insert_sorted(s, x) =~= s.insert(0, x));
    }
}

proof fn lemma_insert_keeps_order(s: Seq<Seq<char>>, x: Seq<char>)
    requires
        in_order(s),
    ensures
        in_order(insert_sorted(s, x)),
    decreases s.len(),
{
    let r = insert_sorted(s, x);
    if s.len() == 0 {
    } else if text_less(x, s[0]) {
        assert forall|a: int, b: int| 0 <= a < b < r.len() implies !text_less(#[trigger] r[b], #[trigger] r[a]) by {
            if a == 0 {
                assert(r[b] == s[b - 1]);
                if text_less(r[b], x) {
                    lemma_less_transitive(r[b], x, s[0]);
                    if b - 1 > 0 {
                        assert(!text_less(s[b - 1], s[0]));
                    } else {
                        lemma_less_irreflexive(s[0]);
                    }
                }
            } else {
                assert(r[a] == s[a - 1]);
                assert(r[b] == s[b - 1]);
            }
        }
    } else {
        let rest = s.drop_first();
        assert(in_order(rest)) by {
            assert forall|a: int, b: int| 0 <= a < b < rest.len() implies !text_less(#[trigger] rest[b], #[trigger] rest[a]) by {
                assert(rest[a] == s[a + 1]);
                assert(rest[b] == s[b + 1]);
            }
        }
        lemma_insert_keeps_order(rest, x);
        lemma_insert_is_insert(rest, x);
        let t = insert_sorted(rest, x);
        assert(r =~= seq![s[0]] + t);
        assert forall|a: int, b: int| 0 <= a < b < r.len() implies !text_less(#[trigger] r[b], #[trigger] r[a]) by {
            if a == 0 {
                assert(r[b] == t[b - 1]);
                let p = insert_position(rest, x);
                if b - 1 == p {
                    assert(t[b - 1] == x);
                } else if b - 1 < p {
                    assert(t[b - 1] == rest[b - 1]);
                    assert(rest[b - 1] == s[b]);
                } else {
                    assert(t[b - 1] == rest[b - 2]);
                    assert(rest[b - 2] == s[b - 1]);
                    if b - 1 == 0 {
                        lemma_less_irreflexive(s[0]);
                    }
                }
            } else {
                assert(r[a] == t[a - 1]);
                assert(r[b] == t[b - 1]);
            }
        }
    }
}

/// The configs of a Workspace come in name order, and none is lost or
/// added: the sorted names are the given names, in order.
pub proof fn law_names_sorted(names: Seq<Seq<char>>, n: nat)
    requires
        n <= names.len(),
    ensures
        in_order(sorted_names(names, n)),
        sorted_names(names, n).to_multiset() == names.subrange(0, n as int).to_multiset(),
    decreases n,
{
    broadcast use vstd::seq_lib::group_to_multiset_ensures;
    if n > 0 {
        law_names_sorted(names, (n - 1) as nat);
        let before = sorted_names(names, (n - 1) as nat);
        lemma_insert_keeps_order(before, names[n - 1]);
        lemma_insert_is_insert(before, names[n - 1]);
        vstd::seq_lib::to_multiset_insert(before, insert_position(before, names[n - 1]), names[n - 1]);
        assert(names.subrange(0, n as int) =~= names.subrange(0, n - 1).push(names[n - 1]));
    } else {
        assert(names.subrange(0, 0) =~= Seq::<Seq<char>>::empty());
    }
}


/// A directory name as `read_dir` gives it: not empty, no `/`.
pub open spec fn plain_name(n: Seq<char>) -> bool {
    n.len() > 0 && !n.contains('/')
}

proof fn lemma_named_config(ws: Seq<char>, name: Seq<char>)
    requires
        ws.len() > 0,
        ws.last() != '/',
        plain_name(name),
    ensures
        config_name_text(
            ws,
            path_join(path_join(path_join(ws, ".devcontainer"@), name), "devcontainer.json"@),
        ) == "repo-"@ + name,
{
    reveal_strlit(".devcontainer");
    reveal_strlit("devcontainer.json");
    reveal_strlit("/.devcontainer/devcontainer.json");
    reveal_strlit("/.devcontainer.json");
    reveal_strlit("/.devcontainer/");
    reveal_strlit("/devcontainer.json");
    let d = path_join(ws, ".devcontainer"@);
    assert(d == ws + seq!['/'] + ".devcontainer"@);
    assert(d.last() == 'r');
    assert(name[0] != '/') by {
        assert(name.contains(name[0]));
    }
    let e = path_join(d, name);
    assert(e == d + seq!['/'] + name);
    assert(e.last() == name.last()) by {
        assert(e[e.len() - 1] == name[name.len() - 1]);
    }
    assert(name.last() != '/') by {
        assert(name.contains(name[name.len() - 1]));
    }
    let p = path_join(e, "devcontainer.json"@);
    assert(p == e + seq!['/'] + "devcontainer.json"@);
    let prefix = ws + "/.devcontainer/"@;
    let suffix = "/devcontainer.json"@;
    assert(p =~= prefix + name + suffix);
    assert(p.len() == ws.len() + 33 + name.len());
    assert(p != ws + "/.devcontainer/devcontainer.json"@);
    assert(p != ws + "/.devcontainer.json"@);
    assert(p.subrange(0, prefix.len() as int) =~= prefix);
    let rest = p.skip(prefix.len() as int);
    assert(rest =~= name + suffix);
    assert(rest.subrange(rest.len() - suffix.len(), rest.len() as int) =~= suffix);
    assert(rest.take(rest.len() - suffix.len()) =~= name);
}

proof fn lemma_primary_configs(ws: Seq<char>)
    requires
        ws.len() > 0,
        ws.last() != '/',
    ensures
        config_name_text(ws, path_join(ws, ".devcontainer/devcontainer.json"@)) == "repo"@,
        config_name_text(ws, path_join(ws, ".devcontainer.json"@)) == "repo"@,
{
    reveal_strlit(".devcontainer/devcontainer.json");
    reveal_strlit(".devcontainer.json");
    reveal_strlit("/.devcontainer/devcontainer.json");
    reveal_strlit("/.devcontainer.json");
    assert(path_join(ws, ".devcontainer/devcontainer.json"@) =~= ws + "/.devcontainer/devcontainer.json"@);
    assert(path_join(ws, ".devcontainer.json"@) =~= ws + "/.devcontainer.json"@);
}

/// Every config a Workspace lists is labelled, when started, with the name
/// it is listed under (`repo`, `repo-<name>`): the label of a listed
/// config's path is its listed name. This holds for every Workspace path
/// that is not empty and does not end in `/`, and for directory names as a
/// directory listing gives them; an empty Workspace path lists
/// `.devcontainer/devcontainer.json`, whose label is `default`.
pub proof fn law_listed_configs_keep_their_names(
    ws: Seq<char>,
    nested_exists: bool,
    flat_exists: bool,
    names: Seq<Seq<char>>,
)
    requires
        ws.len() > 0,
        ws.last() != '/',
        forall|i: int| 0 <= i < names.len() ==> plain_name(#[trigger] names[i]),
    ensures
        forall|k: int| 0 <= k < repo_configs_text(ws, nested_exists, flat_exists, names).len() ==> config_name_text(
            ws,
            (#[trigger] repo_configs_text(ws, nested_exists, flat_exists, names)[k]).1,
        ) == repo_configs_text(ws, nested_exists, flat_exists, names)[k].0,
{
    broadcast use vstd::seq_lib::group_to_multiset_ensures;
    lemma_primary_configs(ws);
    let sorted = sorted_names(names, names.len());
    law_names_sorted(names, names.len());
    assert(names.subrange(0, names.len() as int) =~= names);
    assert forall|j: int| 0 <= j < sorted.len() implies plain_name(#[trigger] sorted[j]) by {
        assert(sorted.to_multiset().count(sorted[j]) > 0);
        assert(names.contains(sorted[j]));
    }
    let r = repo_configs_text(ws, nested_exists, flat_exists, names);
    let primary_len: int = if nested_exists || flat_exists { 1 } else { 0 };
    assert forall|k: int| 0 <= k < r.len() implies config_name_text(ws, (#[trigger] r[k]).1) == r[k].0 by {
        if k >= primary_len {
            let j = k - primary_len;
            lemma_named_config(ws, sorted[j]);
        }
    }
}

/// The joint state of a Workspace's containers, from the `State` column
/// docker printed: `running` exactly when some line, at whatever position,
/// is `running`; `stopped` exactly when no line is but some line is not
/// empty; `none` when every line is empty, and when docker failed.
pub proof fn law_joint_container_state(output: Option<Seq<char>>)
    ensures
        output is None ==> state_text(output) == "none"@,
        output matches Some(out) ==> (state_text(output) == "running"@ <==> exists|i: int|
            0 <= i < lines(out).len() && #[trigger] lines(out)[i] == "running"@),
        output matches Some(out) ==> (state_text(output) == "stopped"@ <==> (
            (forall|i: int| 0 <= i < lines(out).len() ==> #[trigger] lines(out)[i] != "running"@)
            && exists|i: int| 0 <= i < lines(out).len() && (#[trigger] lines(out)[i]).len() > 0)),
        output matches Some(out) ==> (state_text(output) == "none"@ <==> forall|i: int|
            0 <= i < lines(out).len() ==> (#[trigger] lines(out)[i]).len() == 0),
{
    reveal_strlit("running");
    reveal_strlit("stopped");
    reveal_strlit("none");
    assert("running"@ != "stopped"@ && "running"@ != "none"@ && "stopped"@ != "none"@) by {
        assert("running"@.len() != "none"@.len());
        assert("stopped"@.len() != "none"@.len());
        assert("running"@[0] != "stopped"@[0]);
    }
    if let Some(out) = output {
        let ls = lines(out);
        if exists|i: int| 0 <= i < ls.len() && ls[i] == "running"@ {
            let i = choose|i: int| 0 <= i < ls.len() && ls[i] == "running"@;
            assert(ls[i].len() > 0);
        }
    }
}

} // verus!
