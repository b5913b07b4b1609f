//! The session manager role: tmux and herdr.
//!
//! How Workspaces map to sessions differs by manager:
//! - tmux: one session per Workspace (`<ns>_<repo>[_<id>]`)
//! - herdr: one session per repository (`<ns>.<repo>`), holding one
//!   workspace per issue (labelled with the issue id). Workspaces are driven
//!   from outside the session through its socket (`HERDR_SOCKET_PATH`).
//!
//! Names and labels come from the domain layer. The library builds the
//! commands and reads the managers' answers; running them is the caller's.
use vstd::prelude::*;
use crate::text::{chars_of, is_ascii_alnum, lines, lines_of, string_of, trim, views};
use crate::json::{array_field, array_items, bool_field, field, json_of_text, parse_json, str_field, Json};
use crate::domains::{
    herdr_label_text, herdr_session_text, path_join, tmux_session_text, RepoRef, WorkspaceId,
};
use crate::settings::{manager_name, message, opt_text, SessionManager};
use crate::tracker::string_views;
use crate::worktree::string_pairs;

verus! {

// ---------------------------------------------------------------------------
// herdr's answers
// ---------------------------------------------------------------------------

/// The session list in what `herdr session list --json` printed.
pub open spec fn herdr_sessions_of(output: Option<Seq<char>>) -> Seq<Json> {
    match output {
        Some(out) => match json_of_text(out) {
            Some(v) => match array_field(v, "sessions"@) {
                Some(s) => s,
                None => Seq::empty(),
            },
            None => Seq::empty(),
        },
        None => Seq::empty(),
    }
}

/// A session entry names `session` and runs.
pub open spec fn is_running_entry(s: Json, session: Seq<char>) -> bool {
    str_field(s, "name"@) == Some(session) && bool_field(s, "running"@) == Some(true)
}

/// herdr lists `session` as running.
pub open spec fn herdr_running_text(output: Option<Seq<char>>, session: Seq<char>) -> bool {
    let ss = herdr_sessions_of(output);
    exists|i: int| 0 <= i < ss.len() && is_running_entry(#[trigger] ss[i], session)
}

/// The socket of `session`: the `socket_path` of the first entry among the
/// first `n` that names it and has one.
pub open spec fn socket_in(ss: Seq<Json>, session: Seq<char>, n: nat) -> Option<Seq<char>>
    decreases n,
{
    if n == 0 || n > ss.len() {
        None
    } else {
        match socket_in(ss, session, (n - 1) as nat) {
            Some(x) => Some(x),
            None => if str_field(ss[n - 1], "name"@) == Some(session) {
                str_field(ss[n - 1], "socket_path"@)
            } else {
                None
            },
        }
    }
}

/// The socket of `session` in herdr's session list.
pub open spec fn herdr_socket_text(output: Option<Seq<char>>, session: Seq<char>) -> Option<Seq<char>> {
    let ss = herdr_sessions_of(output);
    socket_in(ss, session, ss.len())
}

/// The arguments that list herdr's sessions.
pub fn herdr_session_list_args() -> (r: Vec<String>)
    ensures
        string_views(r@) == seq!["session"@, "list"@, "--json"@],
{
    let r = vec!["session".to_owned(), "list".to_owned(), "--json".to_owned()];
    assert(string_views(r@) =~= seq!["session"@, "list"@, "--json"@]);
    r
}

/// Whether herdr lists `session` as running, from what
/// `herdr session list --json` printed (`None` when it failed).
pub fn herdr_session_running(output: Option<&str>, session: &str) -> (b: bool)
    ensures
        b == herdr_running_text(opt_text(output), session@),
{
    let out = match output {
        Some(o) => o,
        None => return false,
    };
    let doc = parse_json(out);
    let ss = match &doc {
        Some(v) => match v.array_at("sessions") {
            Some(ss) => ss,
            None => return false,
        },
        None => return false,
    };
    let ghost sv = herdr_sessions_of(opt_text(output));
    assert(sv == ss@);
    let mut i: usize = 0;
    while i < ss.len()
        invariant
            i <= ss@.len(),
            sv == ss@,
            sv == herdr_sessions_of(opt_text(output)),
            forall|k: int| 0 <= k < i ==> !is_running_entry(#[trigger] ss@[k], session@),
        decreases ss.len() - i,
    {
        let e = &ss[i];
        let named = match e.str_at("name") {
            Some(n) => crate::text::str_eq(n, session),
            None => false,
        };
        if named && e.bool_at("running") == Some(true) {
            assert(is_running_entry(ss@[i as int], session@));
            return true;
        }
        i = i + 1;
    }
    false
}

/// The socket of `session` in what `herdr session list --json` printed.
pub fn herdr_socket_path(output: Option<&str>, session: &str) -> (r: Option<String>)
    ensures
        match r {
            Some(x) => herdr_socket_text(opt_text(output), session@) == Some(x@),
            None => herdr_socket_text(opt_text(output), session@) is None,
        },
{
    let out = match output {
        Some(o) => o,
        None => return None,
    };
    let doc = parse_json(out);
    let ss = match &doc {
        Some(v) => match v.array_at("sessions") {
            Some(ss) => ss,
            None => return None,
        },
        None => return None,
    };
    let ghost sv = herdr_sessions_of(opt_text(output));
    assert(sv == ss@);
    let mut i: usize = 0;
    while i < ss.len()
        invariant
            i <= ss@.len(),
            sv == ss@,
            sv == herdr_sessions_of(opt_text(output)),
            socket_in(sv, session@, i as nat) is None,
        decreases ss.len() - i,
    {
        let e = &ss[i];
        let named = match e.str_at("name") {
            Some(n) => crate::text::str_eq(n, session),
            None => false,
        };
        if named {
            if let Some(sock) = e.str_at("socket_path") {
                proof {
                    lemma_socket_stays(sv, session@, (i + 1) as nat, sv.len(), sock@);
                }
                return Some(sock.to_owned());
            }
        }
        i = i + 1;
    }
    None
}

proof fn lemma_socket_stays(ss: Seq<Json>, session: Seq<char>, n: nat, m: nat, x: Seq<char>)
    requires
        0 < n <= m <= ss.len(),
        socket_in(ss, session, n) == Some(x),
    ensures
        socket_in(ss, session, m) == Some(x),
    decreases m - n,
{
    if n < m {
        lemma_socket_stays(ss, session, n, (m - 1) as nat, x);
    }
}

/// The (workspace id, label) pairs among the first `n` workspace entries
/// that have both as strings.
pub open spec fn workspaces_in(ws: Seq<Json>, n: nat) -> Seq<(Seq<char>, Seq<char>)>
    decreases n,
{
    if n == 0 || n > ws.len() {
        Seq::empty()
    } else {
        let before = workspaces_in(ws, (n - 1) as nat);
        match (str_field(ws[n - 1], "workspace_id"@), str_field(ws[n - 1], "label"@)) {
            (Some(id), Some(label)) => before.push((id, label)),
            _ => before,
        }
    }
}

/// The workspaces of a session in what `herdr workspace list` printed
/// (`result.workspaces`).
pub open spec fn herdr_workspaces_text(output: Option<Seq<char>>) -> Seq<(Seq<char>, Seq<char>)> {
    match output {
        Some(out) => match json_of_text(out) {
            Some(v) => match field(v, "result"@) {
                Some(result) => match array_field(result, "workspaces"@) {
                    Some(ws) => workspaces_in(ws, ws.len()),
                    None => Seq::empty(),
                },
                None => Seq::empty(),
            },
            None => Seq::empty(),
        },
        None => Seq::empty(),
    }
}

/// The arguments that list the workspaces of the session whose socket is
/// given in `HERDR_SOCKET_PATH`.
pub fn herdr_workspace_list_args() -> (r: Vec<String>)
    ensures
        string_views(r@) == seq!["workspace"@, "list"@],
{
    let r = vec!["workspace".to_owned(), "list".to_owned()];
    assert(string_views(r@) =~= seq!["workspace"@, "list"@]);
    r
}

/// The (workspace id, label) pairs of a session, from what
/// `herdr workspace list` printed; none when it failed.
pub fn herdr_workspaces(output: Option<&str>) -> (r: Vec<(String, String)>)
    ensures
        string_pairs(r@) == herdr_workspaces_text(opt_text(output)),
{
    let mut out: Vec<(String, String)> = Vec::new();
    assert(string_pairs(out@) =~= Seq::<(Seq<char>, Seq<char>)>::empty());
    let text = match output {
        Some(o) => o,
        None => return out,
    };
    let doc = parse_json(text);
    let ws = match &doc {
        Some(v) => match v.get("result") {
            Some(result) => match result.array_at("workspaces") {
                Some(ws) => ws,
                None => return out,
            },
            None => return out,
        },
        None => return out,
    };
    let ghost whole = herdr_workspaces_text(opt_text(output));
    assert(whole == workspaces_in(ws@, ws@.len()));
    let mut i: usize = 0;
    while i < ws.len()
        invariant
            i <= ws@.len(),
            whole == workspaces_in(ws@, ws@.len()),
            whole == herdr_workspaces_text(opt_text(output)),
            string_pairs(out@) == workspaces_in(ws@, i as nat),
        decreases ws.len() - i,
    {
        let ghost before = string_pairs(out@);
        match (ws[i].str_at("workspace_id"), ws[i].str_at("label")) {
            (Some(id), Some(label)) => {
                out.push((id.to_owned(), label.to_owned()));
                assert(string_pairs(out@) =~= before.push((id@, label@)));
            },
            _ => {},
        }
        i = i + 1;
    }
    out
}

/// The first workspace with this label.
pub open spec fn workspace_with_label(ws: Seq<(Seq<char>, Seq<char>)>, label: Seq<char>) -> Option<Seq<char>> {
    if exists|i: int| is_first_label(ws, label, i) {
        Some(ws[choose|i: int| is_first_label(ws, label, i)].0)
    } else {
        None
    }
}

/// `i` is the first workspace with this label.
pub open spec fn is_first_label(ws: Seq<(Seq<char>, Seq<char>)>, label: Seq<char>, i: int) -> bool {
    &&& 0 <= i < ws.len()
    &&& ws[i].1 == label
    &&& forall|j: int| 0 <= j < i ==> ws[j].1 != label
}

/// The id of the first workspace with this label.
pub fn herdr_workspace_id(workspaces: &[(String, String)], label: &str) -> (r: Option<String>)
    ensures
        match r {
            Some(id) => workspace_with_label(string_pairs(workspaces@), label@) == Some(id@),
            None => workspace_with_label(string_pairs(workspaces@), label@) is None,
        },
{
    let ghost ws = string_pairs(workspaces@);
    let mut i: usize = 0;
    let n = workspaces.len();
    while i < n
        invariant
            i <= n,
            n == workspaces@.len(),
            ws == string_pairs(workspaces@),
            forall|k: int| 0 <= k < i ==> ws[k].1 != label@,
        decreases n - i,
    {
        assert(ws[i as int] == (workspaces@[i as int].0@, workspaces@[i as int].1@));
        if crate::text::str_eq(workspaces[i].1.as_str(), label) {
            proof {
                assert(is_first_label(ws, label@, i as int));
                let c = choose|c: int| is_first_label(ws, label@, c);
                if c < i {
                    assert(ws[c].1 != label@);
                } else if i < c {
                    assert(ws[i as int].1 != label@);
                }
            }
            return Some(crate::text::copy_string(&workspaces[i].0));
        }
        i = i + 1;
    }
    None
}

// ---------------------------------------------------------------------------
// Workspaces and sessions, over the managers
// ---------------------------------------------------------------------------

/// The arguments that ask tmux whether a session exists (exact name).
pub fn tmux_has_session_args(session: &str) -> (r: Vec<String>)
    ensures
        string_views(r@) == seq!["has-session"@, "-t"@, "="@ + session@],
{
    let r = vec!["has-session".to_owned(), "-t".to_owned(), message("=", &chars_of(session))];
    assert(string_views(r@) =~= seq!["has-session"@, "-t"@, "="@ + session@]);
    r
}

/// A Workspace has a live session: its tmux session exists, or herdr runs
/// the repository's session and (for an issue) that session has a
/// workspace labelled with the issue id.
pub open spec fn session_exists_text(
    repo: (Seq<char>, Seq<char>),
    id: Seq<char>,
    main: bool,
    tmux_exists: bool,
    sessions_output: Option<Seq<char>>,
    workspaces_output: Option<Seq<char>>,
) -> bool {
    tmux_exists || (herdr_running_text(sessions_output, herdr_session_text(repo)) && (main || (
    herdr_socket_text(sessions_output, herdr_session_text(repo)) is Some && workspace_with_label(
        herdr_workspaces_text(workspaces_output),
        id,
    ) is Some)))
}

/// Whether a Workspace has a live session over the managers: tmux by the
/// session name (`tmux_exists`, false when tmux is not configured), herdr
/// by the repository session and, for an issue, the workspace label. The
/// herdr answers are `None` when herdr is not configured or failed;
/// `workspaces_output` is the workspace list of the session's socket.
pub fn workspace_session_exists(
    repo: &RepoRef,
    id: &WorkspaceId,
    tmux_exists: bool,
    sessions_output: Option<&str>,
    workspaces_output: Option<&str>,
) -> (b: bool)
    ensures
        b == session_exists_text(
            repo@,
            id.text(),
            id is Main,
            tmux_exists,
            opt_text(sessions_output),
            opt_text(workspaces_output),
        ),
{
    if tmux_exists {
        return true;
    }
    let session = crate::domains::herdr_session_name(repo);
    if !herdr_session_running(sessions_output, session.as_str()) {
        return false;
    }
    match id {
        WorkspaceId::Main => true,
        WorkspaceId::Issue(issue) => {
            if herdr_socket_path(sessions_output, session.as_str()).is_none() {
                return false;
            }
            let ws = herdr_workspaces(workspaces_output);
            herdr_workspace_id(ws.as_slice(), issue.as_str()).is_some()
        },
    }
}

/// Some workspace of the list has a label other than this one.
pub open spec fn has_other_label(ws: Seq<(Seq<char>, Seq<char>)>, label: Seq<char>) -> bool {
    exists|i: int| 0 <= i < ws.len() && #[trigger] ws[i].1 != label
}

/// The herdr session of a repository still holds issue workspaces (any
/// workspace other than the main one, whose label is the repository name),
/// so `main` cannot be removed.
pub open spec fn blocks_main_removal_text(
    repo: (Seq<char>, Seq<char>),
    sessions_output: Option<Seq<char>>,
    workspaces_output: Option<Seq<char>>,
) -> bool {
    herdr_running_text(sessions_output, herdr_session_text(repo))
        && herdr_socket_text(sessions_output, herdr_session_text(repo)) is Some
        && has_other_label(herdr_workspaces_text(workspaces_output), repo.1)
}

/// Whether the herdr session of a repository still holds workspaces other
/// than the main one; removing `main` is then refused.
pub fn herdr_blocks_main_removal(repo: &RepoRef, sessions_output: Option<&str>, workspaces_output: Option<&str>) -> (b: bool)
    ensures
        b == blocks_main_removal_text(repo@, opt_text(sessions_output), opt_text(workspaces_output)),
{
    let session = crate::domains::herdr_session_name(repo);
    if !herdr_session_running(sessions_output, session.as_str()) {
        return false;
    }
    if herdr_socket_path(sessions_output, session.as_str()).is_none() {
        return false;
    }
    let ws = herdr_workspaces(workspaces_output);
    let ghost wv = string_pairs(ws@);
    let main_label = repo.repo();
    let mut i: usize = 0;
    while i < ws.len()
        invariant
            i <= ws@.len(),
            wv == string_pairs(ws@),
            wv == herdr_workspaces_text(opt_text(workspaces_output)),
            main_label@ == repo@.1,
            herdr_running_text(opt_text(sessions_output), herdr_session_text(repo@)),
            herdr_socket_text(opt_text(sessions_output), herdr_session_text(repo@)) is Some,
            forall|k: int| 0 <= k < i ==> wv[k].1 == main_label@,
        decreases ws.len() - i,
    {
        assert(wv[i as int].1 == ws@[i as int].1@);
        if !crate::text::str_eq(ws[i].1.as_str(), main_label) {
            assert(wv[i as int].1 != repo@.1);
            return true;
        }
        i = i + 1;
    }
    false
}

/// The arguments that create a detached tmux session in a directory.
pub fn tmux_new_session_args(session: &str, cwd: &str) -> (r: Vec<String>)
    ensures
        string_views(r@) == seq!["new-session"@, "-d"@, "-s"@, session@, "-c"@, cwd@],
{
    let r = vec![
        "new-session".to_owned(),
        "-d".to_owned(),
        "-s".to_owned(),
        session.to_owned(),
        "-c".to_owned(),
        cwd.to_owned(),
    ];
    assert(string_views(r@) =~= seq!["new-session"@, "-d"@, "-s"@, session@, "-c"@, cwd@]);
    r
}

/// The arguments that start a repository's herdr session headless.
pub fn herdr_server_args(session: &str) -> (r: Vec<String>)
    ensures
        string_views(r@) == seq!["--session"@, session@, "server"@],
{
    let r = vec!["--session".to_owned(), session.to_owned(), "server".to_owned()];
    assert(string_views(r@) =~= seq!["--session"@, session@, "server"@]);
    r
}

/// What to do with one herdr workspace: create it (in a directory, with a
/// label, focused or not), focus it, or nothing.
pub enum WorkspaceAction {
    Create(String, String, bool),
    Focus(String),
    Keep,
}

/// The arguments of a workspace action (none for `Keep`).
pub open spec fn action_args_text(a: WorkspaceAction) -> Seq<Seq<char>> {
    match a {
        WorkspaceAction::Create(cwd, label, focus) => seq![
            "workspace"@,
            "create"@,
            "--cwd"@,
            cwd@,
            "--label"@,
            label@,
            if focus {
                "--focus"@
            } else {
                "--no-focus"@
            },
        ],
        WorkspaceAction::Focus(wid) => seq!["workspace"@, "focus"@, wid@],
        WorkspaceAction::Keep => Seq::empty(),
    }
}

/// The arguments of a workspace action, run with the session's socket in
/// `HERDR_SOCKET_PATH`.
pub fn action_args(a: &WorkspaceAction) -> (r: Vec<String>)
    ensures
        string_views(r@) == action_args_text(*a),
{
    match a {
        WorkspaceAction::Create(cwd, label, focus) => {
            let flag = if *focus {
                "--focus".to_owned()
            } else {
                "--no-focus".to_owned()
            };
            let r = vec![
                "workspace".to_owned(),
                "create".to_owned(),
                "--cwd".to_owned(),
                crate::text::copy_string(cwd),
                "--label".to_owned(),
                crate::text::copy_string(label),
                flag,
            ];
            assert(string_views(r@) =~= action_args_text(*a));
            r
        },
        WorkspaceAction::Focus(wid) => {
            let r = vec!["workspace".to_owned(), "focus".to_owned(), crate::text::copy_string(wid)];
            assert(string_views(r@) =~= action_args_text(*a));
            r
        },
        WorkspaceAction::Keep => {
            let r: Vec<String> = Vec::new();
            assert(string_views(r@) =~= action_args_text(*a));
            r
        },
    }
}

/// The action on the main workspace (label = repository name) when a
/// Workspace is opened: it is always made sure of (a session started
/// headless has no workspace, and one created on attach would not start in
/// the clone); it takes the focus only when `main` itself is opened.
pub open spec fn main_action_text(
    repo: (Seq<char>, Seq<char>),
    main: bool,
    clone_path: Seq<char>,
    ws: Seq<(Seq<char>, Seq<char>)>,
) -> (Seq<Seq<char>>, bool) {
    match workspace_with_label(ws, repo.1) {
        None => (
            seq![
                "workspace"@,
                "create"@,
                "--cwd"@,
                clone_path,
                "--label"@,
                repo.1,
                if main {
                    "--focus"@
                } else {
                    "--no-focus"@
                },
            ],
            true,
        ),
        Some(wid) => if main {
            (seq!["workspace"@, "focus"@, wid], false)
        } else {
            (Seq::empty(), false)
        },
    }
}

/// The action on the main workspace when a Workspace is opened with herdr,
/// given the session's workspaces. A `Create` that fails fails the open.
pub fn main_workspace_action(repo: &RepoRef, id: &WorkspaceId, clone_path: &str, workspaces: &[(String, String)]) -> (r: WorkspaceAction)
    ensures
        (action_args_text(r), r is Create) == main_action_text(repo@, id is Main, clone_path@, string_pairs(workspaces@)),
{
    let label = crate::domains::herdr_workspace_label(repo, &WorkspaceId::Main);
    let opening_main = match id {
        WorkspaceId::Main => true,
        WorkspaceId::Issue(_) => false,
    };
    match herdr_workspace_id(workspaces, label.as_str()) {
        None => WorkspaceAction::Create(clone_path.to_owned(), label, opening_main),
        Some(wid) => if opening_main {
            WorkspaceAction::Focus(wid)
        } else {
            WorkspaceAction::Keep
        },
    }
}


/// The action on an issue's workspace when it is opened with herdr: focus
/// it when it exists, create it in the worktree (focused) otherwise;
/// nothing for `main`.
pub open spec fn issue_action_text(
    issue: Option<Seq<char>>,
    cwd: Seq<char>,
    ws: Seq<(Seq<char>, Seq<char>)>,
) -> (Seq<Seq<char>>, bool) {
    match issue {
        None => (Seq::empty(), false),
        Some(i) => match workspace_with_label(ws, i) {
            Some(wid) => (seq!["workspace"@, "focus"@, wid], false),
            None => (seq!["workspace"@, "create"@, "--cwd"@, cwd, "--label"@, i, "--focus"@], true),
        },
    }
}

/// The issue of a Workspace id, none for `main`.
pub open spec fn issue_of_id(id: WorkspaceId) -> Option<Seq<char>> {
    match id {
        WorkspaceId::Main => None,
        WorkspaceId::Issue(i) => Some(i@),
    }
}

/// The action on the opened issue's workspace, given the session's
/// workspaces (listed again after the main one was made sure of). A
/// `Create` that fails fails the open.
pub fn issue_workspace_action(id: &WorkspaceId, cwd: &str, workspaces: &[(String, String)]) -> (r: WorkspaceAction)
    ensures
        (action_args_text(r), r is Create) == issue_action_text(issue_of_id(*id), cwd@, string_pairs(workspaces@)),
{
    match id {
        WorkspaceId::Main => WorkspaceAction::Keep,
        WorkspaceId::Issue(issue) => match herdr_workspace_id(workspaces, issue.as_str()) {
            Some(wid) => WorkspaceAction::Focus(wid),
            None => WorkspaceAction::Create(cwd.to_owned(), crate::text::copy_string(issue), true),
        },
    }
}

/// How starting a herdr session went: it runs, it could not be spawned
/// (with the system's reason), or it did not come up in time.
pub enum HerdrStart {
    Running,
    SpawnFailed(String),
    Stalled,
}

/// Preparing a tmux session, idempotently: the command that creates it
/// (detached, named, in the Workspace) when it does not exist, and nothing
/// when it does.
pub fn tmux_prepare(session: &str, cwd: &str, exists: bool) -> (r: Option<Vec<String>>)
    ensures
        r is None <==> exists,
        r matches Some(a) ==> string_views(a@) == seq!["new-session"@, "-d"@, "-s"@, session@, "-c"@, cwd@],
{
    if exists {
        None
    } else {
        Some(tmux_new_session_args(session, cwd))
    }
}

/// How many times the session list is read, at most, after the server of
/// a herdr session was spawned, before starting it counts as stalled.
pub open spec fn herdr_start_reads() -> u32 {
    50
}

/// Where starting a herdr session stands: the first read of the session
/// list is awaited, the spawn of its server is, a read after the spawn is
/// (with the number of reads made since), or it is over.
pub enum HerdrStartState {
    Probe,
    Spawning,
    Polling(u32),
    Over,
}

/// What the caller saw: whether the session list shows the session
/// running, or how spawning `herdr --session <name> server` went.
pub enum HerdrStartEvent {
    Running(bool),
    Spawned(Result<(), String>),
}

/// What the caller does next: spawn the server, read the session list now,
/// wait a tenth of a second and read it, or stop with the outcome.
pub enum HerdrStartAction {
    Spawn,
    Probe,
    Wait,
    Done(HerdrStart),
}

/// The answers each state waits for.
pub open spec fn herdr_start_fits(s: HerdrStartState, e: HerdrStartEvent) -> bool {
    match s {
        HerdrStartState::Probe => e is Running,
        HerdrStartState::Spawning => e is Spawned,
        HerdrStartState::Polling(n) => e is Running && n < herdr_start_reads(),
        HerdrStartState::Over => false,
    }
}

/// Starting a herdr session headless, idempotently: a running session is
/// left alone; else its server is spawned (a failed spawn is the outcome)
/// and the session list is read until the session runs, at most fifty
/// times, a tenth of a second apart; then it counts as stalled.
pub open spec fn herdr_start_spec(s: HerdrStartState, e: HerdrStartEvent) -> (HerdrStartState, HerdrStartAction) {
    match (s, e) {
        (HerdrStartState::Probe, HerdrStartEvent::Running(true)) => (HerdrStartState::Over, HerdrStartAction::Done(HerdrStart::Running)),
        (HerdrStartState::Probe, HerdrStartEvent::Running(false)) => (HerdrStartState::Spawning, HerdrStartAction::Spawn),
        (HerdrStartState::Spawning, HerdrStartEvent::Spawned(Err(m))) => (HerdrStartState::Over, HerdrStartAction::Done(HerdrStart::SpawnFailed(m))),
        (HerdrStartState::Spawning, HerdrStartEvent::Spawned(Ok(()))) => (HerdrStartState::Polling(0), HerdrStartAction::Probe),
        (HerdrStartState::Polling(_), HerdrStartEvent::Running(true)) => (HerdrStartState::Over, HerdrStartAction::Done(HerdrStart::Running)),
        (HerdrStartState::Polling(n), HerdrStartEvent::Running(false)) => if n + 1 < herdr_start_reads() {
            (HerdrStartState::Polling((n + 1) as u32), HerdrStartAction::Wait)
        } else {
            (HerdrStartState::Over, HerdrStartAction::Done(HerdrStart::Stalled))
        },
        _ => (HerdrStartState::Over, HerdrStartAction::Done(HerdrStart::Stalled)),
    }
}

/// Whether the state waits for this answer.
pub fn herdr_start_accepts(state: &HerdrStartState, event: &HerdrStartEvent) -> (b: bool)
    ensures
        b == herdr_start_fits(*state, *event),
{
    match state {
        HerdrStartState::Probe => matches!(event, HerdrStartEvent::Running(_)),
        HerdrStartState::Spawning => matches!(event, HerdrStartEvent::Spawned(_)),
        HerdrStartState::Polling(n) => matches!(event, HerdrStartEvent::Running(_)) && *n < 50,
        HerdrStartState::Over => false,
    }
}

/// One step of starting a herdr session: from the state and what the
/// caller saw, the next state and what to do.
pub fn herdr_start_step(state: HerdrStartState, event: HerdrStartEvent) -> (r: (HerdrStartState, HerdrStartAction))
    requires
        herdr_start_fits(state, event),
    ensures
        r == herdr_start_spec(state, event),
{
    match (state, event) {
        (HerdrStartState::Probe, HerdrStartEvent::Running(running)) => if running {
            (HerdrStartState::Over, HerdrStartAction::Done(HerdrStart::Running))
        } else {
            (HerdrStartState::Spawning, HerdrStartAction::Spawn)
        },
        (HerdrStartState::Spawning, HerdrStartEvent::Spawned(result)) => match result {
            Err(m) => (HerdrStartState::Over, HerdrStartAction::Done(HerdrStart::SpawnFailed(m))),
            Ok(()) => (HerdrStartState::Polling(0), HerdrStartAction::Probe),
        },
        (HerdrStartState::Polling(n), HerdrStartEvent::Running(running)) => if running {
            (HerdrStartState::Over, HerdrStartAction::Done(HerdrStart::Running))
        } else if n + 1 < 50 {
            (HerdrStartState::Polling(n + 1), HerdrStartAction::Wait)
        } else {
            (HerdrStartState::Over, HerdrStartAction::Done(HerdrStart::Stalled))
        },
        (_, _) => (HerdrStartState::Over, HerdrStartAction::Done(HerdrStart::Stalled)),
    }
}

/// What preparing the session of a Workspace answers: the session to
/// attach to, or the first step that failed. tmux: the session exists or
/// was created. herdr: installed, the repository session running, its
/// socket known, and the workspace creations that were needed done.
pub open spec fn ensure_text(
    manager: SessionManager,
    repo: (Seq<char>, Seq<char>),
    id: Seq<char>,
    main: bool,
    tmux_exists: bool,
    tmux_created: bool,
    herdr_installed: bool,
    start: HerdrStart,
    socket: Option<Seq<char>>,
    main_ok: bool,
    issue_ok: bool,
) -> Result<Seq<char>, Seq<char>> {
    match manager {
        SessionManager::Tmux => {
            let session = tmux_session_text(repo, id, main);
            if tmux_exists || tmux_created {
                Ok(session)
            } else {
                Err("Failed to create session: "@ + session)
            }
        },
        SessionManager::Herdr => {
            let session = herdr_session_text(repo);
            if !herdr_installed {
                Err("herdr not installed"@)
            } else {
                match start {
                    HerdrStart::SpawnFailed(e) => Err("failed to start herdr session: "@ + session + " ("@ + e@ + ")"@),
                    HerdrStart::Stalled => Err("failed to start herdr session: "@ + session),
                    HerdrStart::Running => match socket {
                        None => Err("failed to resolve herdr socket: "@ + session),
                        Some(_) => if !main_ok || !issue_ok {
                            Err("failed to create herdr workspace"@)
                        } else {
                            Ok(session)
                        },
                    },
                }
            }
        },
    }
}

/// Prepares the session of a Workspace, idempotently, and answers the
/// session to attach to, from how the steps went, each run only when the
/// ones before went well: tmux, whether the session exists and else
/// whether creating it ([`tmux_prepare`]) succeeded; herdr, whether it is
/// installed, how starting the repository session went
/// ([`herdr_start_step`]), its socket, whether the main workspace action
/// and the issue workspace action succeeded (true when no creation was
/// needed).
pub fn ensure(
    manager: SessionManager,
    repo: &RepoRef,
    id: &WorkspaceId,
    tmux_exists: bool,
    tmux_created: bool,
    herdr_installed: bool,
    start: &HerdrStart,
    socket: Option<&str>,
    main_ok: bool,
    issue_ok: bool,
) -> (r: Result<String, String>)
    ensures
        match r {
            Ok(s) => ensure_text(manager, repo@, id.text(), id is Main, tmux_exists, tmux_created, herdr_installed, *start, opt_text(socket), main_ok, issue_ok)
                == Ok::<Seq<char>, Seq<char>>(s@),
            Err(e) => ensure_text(manager, repo@, id.text(), id is Main, tmux_exists, tmux_created, herdr_installed, *start, opt_text(socket), main_ok, issue_ok)
                == Err::<Seq<char>, Seq<char>>(e@),
        },
{
    match manager {
        SessionManager::Tmux => {
            let session = crate::domains::tmux_session_name(repo, id);
            if tmux_exists || tmux_created {
                Ok(session)
            } else {
                Err(message("Failed to create session: ", &chars_of(session.as_str())))
            }
        },
        SessionManager::Herdr => {
            let session = crate::domains::herdr_session_name(repo);
            if !herdr_installed {
                return Err("herdr not installed".to_owned());
            }
            match start {
                HerdrStart::SpawnFailed(e) => {
                    let mut m = chars_of("failed to start herdr session: ");
                    crate::text::append_chars(&mut m, &chars_of(session.as_str()));
                    crate::text::append_chars(&mut m, &chars_of(" ("));
                    crate::text::append_chars(&mut m, &chars_of(e.as_str()));
                    crate::text::append_chars(&mut m, &chars_of(")"));
                    Err(string_of(&m))
                },
                HerdrStart::Stalled => Err(message("failed to start herdr session: ", &chars_of(session.as_str()))),
                HerdrStart::Running => match socket {
                    None => Err(message("failed to resolve herdr socket: ", &chars_of(session.as_str()))),
                    Some(_) => if !main_ok || !issue_ok {
                        Err("failed to create herdr workspace".to_owned())
                    } else {
                        Ok(session)
                    },
                },
            }
        },
    }
}

/// A command for a session manager: its arguments, and the socket of the
/// herdr session to drive (`HERDR_SOCKET_PATH`), if any. Failures are
/// ignored: tearing down is idempotent.
pub struct Invocation {
    pub manager: SessionManager,
    pub args: Vec<String>,
    pub socket: Option<String>,
}

/// The view of an invocation.
pub open spec fn invocation_view(c: Invocation) -> (SessionManager, Seq<Seq<char>>, Option<Seq<char>>) {
    (
        c.manager,
        string_views(c.args@),
        match c.socket {
            Some(s) => Some(s@),
            None => None,
        },
    )
}

/// The views of a list of invocations.
pub open spec fn invocation_views(v: Seq<Invocation>) -> Seq<(SessionManager, Seq<Seq<char>>, Option<Seq<char>>)> {
    Seq::new(v.len(), |i: int| invocation_view(v[i]))
}

/// The commands that stop and delete a herdr session.
pub open spec fn stop_and_delete(session: Seq<char>) -> Seq<(SessionManager, Seq<Seq<char>>, Option<Seq<char>>)> {
    seq![
        (SessionManager::Herdr, seq!["session"@, "stop"@, session, "--json"@], None),
        (SessionManager::Herdr, seq!["session"@, "delete"@, session, "--json"@], None),
    ]
}

/// What tearing down the sessions of a Workspace runs, over the managers:
/// the tmux session is killed (when tmux is configured); with herdr
/// running the repository session, `main` stops and deletes it, and an
/// issue closes its workspace, and stops and deletes the session when that
/// was its last workspace. (Refusing `main` while issue workspaces remain
/// is the caller's.)
pub open spec fn removal_text(
    repo: (Seq<char>, Seq<char>),
    id: Seq<char>,
    main: bool,
    tmux_configured: bool,
    sessions_output: Option<Seq<char>>,
    workspaces_output: Option<Seq<char>>,
) -> Seq<(SessionManager, Seq<Seq<char>>, Option<Seq<char>>)> {
    let tmux_part: Seq<(SessionManager, Seq<Seq<char>>, Option<Seq<char>>)> = if tmux_configured {
        seq![(SessionManager::Tmux, seq!["kill-session"@, "-t"@, "="@ + tmux_session_text(repo, id, main)], None)]
    } else {
        Seq::empty()
    };
    let session = herdr_session_text(repo);
    let herdr_part = if !herdr_running_text(sessions_output, session) {
        Seq::empty()
    } else if main {
        stop_and_delete(session)
    } else {
        match herdr_socket_text(sessions_output, session) {
            None => Seq::empty(),
            Some(sock) => {
                let ws = herdr_workspaces_text(workspaces_output);
                match workspace_with_label(ws, id) {
                    None => Seq::empty(),
                    Some(wid) => seq![(SessionManager::Herdr, seq!["workspace"@, "close"@, wid], Some(sock))]
                        + if ws.len() <= 1 {
                        stop_and_delete(session)
                    } else {
                        Seq::empty()
                    },
                }
            },
        }
    };
    tmux_part + herdr_part
}

fn herdr_session_call(verb: &str, session: &str) -> (c: Invocation)
    ensures
        invocation_view(c) == (SessionManager::Herdr, seq!["session"@, verb@, session@, "--json"@], None::<Seq<char>>),
{
    let args = vec!["session".to_owned(), verb.to_owned(), session.to_owned(), "--json".to_owned()];
    assert(string_views(args@) =~= seq!["session"@, verb@, session@, "--json"@]);
    Invocation { manager: SessionManager::Herdr, args, socket: None }
}

/// The commands that tear down the sessions of a Workspace, idempotently,
/// given whether tmux is configured, what `herdr session list --json`
/// printed (`None` when herdr is not configured or failed) and what
/// `herdr workspace list` printed for the repository session's socket.
pub fn remove_workspace_sessions(
    repo: &RepoRef,
    id: &WorkspaceId,
    tmux_configured: bool,
    sessions_output: Option<&str>,
    workspaces_output: Option<&str>,
) -> (r: Vec<Invocation>)
    ensures
        invocation_views(r@) == removal_text(
            repo@,
            id.text(),
            id is Main,
            tmux_configured,
            opt_text(sessions_output),
            opt_text(workspaces_output),
        ),
{
    let mut out: Vec<Invocation> = Vec::new();
    if tmux_configured {
        let name = crate::domains::tmux_session_name(repo, id);
        let args = vec!["kill-session".to_owned(), "-t".to_owned(), message("=", &chars_of(name.as_str()))];
        assert(string_views(args@) =~= seq!["kill-session"@, "-t"@, "="@ + name@]);
        out.push(Invocation { manager: SessionManager::Tmux, args, socket: None });
    }
    let ghost tmux_part = invocation_views(out@);
    let session = crate::domains::herdr_session_name(repo);
    let ghost herdr_part = removal_text(
        repo@,
        id.text(),
        id is Main,
        tmux_configured,
        opt_text(sessions_output),
        opt_text(workspaces_output),
    ).skip(tmux_part.len() as int);
    assert(tmux_part + herdr_part =~= removal_text(
        repo@,
        id.text(),
        id is Main,
        tmux_configured,
        opt_text(sessions_output),
        opt_text(workspaces_output),
    ));
    if !herdr_session_running(sessions_output, session.as_str()) {
        assert(herdr_part =~= Seq::<(SessionManager, Seq<Seq<char>>, Option<Seq<char>>)>::empty());
        assert(invocation_views(out@) =~= tmux_part + herdr_part);
        return out;
    }
    match id {
        WorkspaceId::Main => {
            out.push(herdr_session_call("stop", session.as_str()));
            out.push(herdr_session_call("delete", session.as_str()));
            assert(invocation_views(out@) =~= tmux_part + stop_and_delete(session@));
        },
        WorkspaceId::Issue(issue) => {
            let sock = match herdr_socket_path(sessions_output, session.as_str()) {
                Some(s) => s,
                None => {
                    assert(invocation_views(out@) =~= tmux_part + herdr_part);
                    return out;
                },
            };
            let ws = herdr_workspaces(workspaces_output);
            let wid = match herdr_workspace_id(ws.as_slice(), issue.as_str()) {
                Some(w) => w,
                None => {
                    assert(invocation_views(out@) =~= tmux_part + herdr_part);
                    return out;
                },
            };
            let close = vec!["workspace".to_owned(), "close".to_owned(), crate::text::copy_string(&wid)];
            assert(string_views(close@) =~= seq!["workspace"@, "close"@, wid@]);
            out.push(Invocation { manager: SessionManager::Herdr, args: close, socket: Some(sock) });
            let ghost with_close = invocation_views(out@);
            if ws.len() <= 1 {
                out.push(herdr_session_call("stop", session.as_str()));
                out.push(herdr_session_call("delete", session.as_str()));
                assert(invocation_views(out@) =~= with_close + stop_and_delete(session@));
            } else {
                assert(invocation_views(out@) =~= with_close + Seq::<(SessionManager, Seq<Seq<char>>, Option<Seq<char>>)>::empty());
            }
        },
    }
    out
}

// ---------------------------------------------------------------------------
// Windows and attaching
// ---------------------------------------------------------------------------

/// The arguments that list the dedup keys (`@wsm_cid`) of a tmux session's
/// panes.
pub fn tmux_list_panes_args(session: &str) -> (r: Vec<String>)
    ensures
        string_views(r@) == seq!["list-panes"@, "-s"@, "-t"@, session@, "-F"@, "#{@wsm_cid}"@],
{
    let r = vec![
        "list-panes".to_owned(),
        "-s".to_owned(),
        "-t".to_owned(),
        session.to_owned(),
        "-F".to_owned(),
        "#{@wsm_cid}".to_owned(),
    ];
    assert(string_views(r@) =~= seq!["list-panes"@, "-s"@, "-t"@, session@, "-F"@, "#{@wsm_cid}"@]);
    r
}

/// The window to add to a session for a command, unless a live pane
/// already carries the same dedup key (tmux records it in the pane option
/// `@wsm_cid`); herdr has no windows, so nothing.
pub open spec fn add_window_text(
    manager: SessionManager,
    session: Seq<char>,
    name: Seq<char>,
    command: Seq<char>,
    dedup_key: Seq<char>,
    panes_output: Option<Seq<char>>,
) -> Option<Seq<Seq<char>>> {
    match manager {
        SessionManager::Herdr => None,
        SessionManager::Tmux => {
            let already = match panes_output {
                Some(out) => crate::devcontainer::has_line(lines(out), dedup_key),
                None => false,
            };
            if already {
                None
            } else {
                Some(
                    seq![
                        "new-window"@,
                        "-d"@,
                        "-P"@,
                        "-F"@,
                        "#{pane_id}"@,
                        "-t"@,
                        session + ":"@,
                        "-n"@,
                        name,
                        command,
                    ],
                )
            }
        },
    }
}

/// The arguments of the window to add for a command (`None`: nothing to
/// add), given what listing the panes' keys printed.
pub fn add_window(
    manager: SessionManager,
    session: &str,
    name: &str,
    command: &str,
    dedup_key: &str,
    panes_output: Option<&str>,
) -> (r: Option<Vec<String>>)
    ensures
        match r {
            Some(args) => add_window_text(manager, session@, name@, command@, dedup_key@, opt_text(panes_output)) == Some(string_views(args@)),
            None => add_window_text(manager, session@, name@, command@, dedup_key@, opt_text(panes_output)) is None,
        },
{
    match manager {
        SessionManager::Herdr => None,
        SessionManager::Tmux => {
            if let Some(out) = panes_output {
                let ls = lines_of(&chars_of(out));
                let ghost lv = views(ls@);
                let key = chars_of(dedup_key);
                let mut i: usize = 0;
                while i < ls.len()
                    invariant
                        i <= ls@.len(),
                        lv == views(ls@),
                        lv == lines(out@),
                        opt_text(panes_output) == Some(out@),
                        manager == SessionManager::Tmux,
                        key@ == dedup_key@,
                        forall|k: int| 0 <= k < i ==> lv[k] != dedup_key@,
                    decreases ls.len() - i,
                {
                    assert(lv[i as int] == ls@[i as int]@);
                    if crate::text::chars_eq(&ls[i], &key) {
                        assert(lv[i as int] == dedup_key@);
                        assert(crate::devcontainer::has_line(lines(out@), dedup_key@));
                        return None;
                    }
                    i = i + 1;
                }
            }
            let mut target = chars_of(session);
            crate::text::append_chars(&mut target, &chars_of(":"));
            let r = vec![
                "new-window".to_owned(),
                "-d".to_owned(),
                "-P".to_owned(),
                "-F".to_owned(),
                "#{pane_id}".to_owned(),
                "-t".to_owned(),
                string_of(&target),
                "-n".to_owned(),
                name.to_owned(),
                command.to_owned(),
            ];
            assert(string_views(r@) =~= seq![
                "new-window"@,
                "-d"@,
                "-P"@,
                "-F"@,
                "#{pane_id}"@,
                "-t"@,
                session@ + ":"@,
                "-n"@,
                name@,
                command@,
            ]);
            Some(r)
        },
    }
}

/// The arguments that record the dedup key on the new pane, from what the
/// new window printed (its pane id, trimmed); none when it printed none.
pub fn pane_key_args(new_window_output: Option<&str>, dedup_key: &str) -> (r: Option<Vec<String>>)
    ensures
        match r {
            Some(args) => match opt_text(new_window_output) {
                Some(out) => trim(out).len() > 0 && string_views(args@) == seq![
                    "set-option"@,
                    "-p"@,
                    "-t"@,
                    trim(out),
                    "@wsm_cid"@,
                    dedup_key@,
                ],
                None => false,
            },
            None => match opt_text(new_window_output) {
                Some(out) => trim(out).len() == 0,
                None => true,
            },
        },
{
    let out = match new_window_output {
        Some(o) => o,
        None => return None,
    };
    let pane = crate::text::trim_chars(&chars_of(out));
    if pane.len() == 0 {
        return None;
    }
    let r = vec![
        "set-option".to_owned(),
        "-p".to_owned(),
        "-t".to_owned(),
        string_of(&pane),
        "@wsm_cid".to_owned(),
        dedup_key.to_owned(),
    ];
    assert(string_views(r@) =~= seq!["set-option"@, "-p"@, "-t"@, pane@, "@wsm_cid"@, dedup_key@]);
    Some(r)
}

/// A character that `printf %q` leaves as it is.
pub open spec fn plain_char(c: char) -> bool {
    is_ascii_alnum(c) || c == '_' || c == '.' || c == '/' || c == '-'
}

/// The first `n` characters of `s` quoted as `printf %q` of zsh does: a
/// backslash before every character other than ASCII letters, digits and
/// `_./-`.
pub open spec fn quoted(s: Seq<char>, n: nat) -> Seq<char>
    decreases n,
{
    if n == 0 || n > s.len() {
        Seq::empty()
    } else if plain_char(s[n - 1]) {
        quoted(s, (n - 1) as nat).push(s[n - 1])
    } else {
        quoted(s, (n - 1) as nat) + seq!['\\', s[n - 1]]
    }
}

/// `s` as one shell word (`printf %q` of zsh).
pub fn quote_word(s: &str) -> (r: String)
    ensures
        r@ == quoted(s@, s@.len()),
{
    let cs = chars_of(s);
    let mut out: Vec<char> = Vec::new();
    let mut i: usize = 0;
    while i < cs.len()
        invariant
            i <= cs@.len(),
            cs@ == s@,
            out@ == quoted(s@, i as nat),
        decreases cs.len() - i,
    {
        let c = cs[i];
        if crate::text::ascii_alnum(c) || c == '_' || c == '.' || c == '/' || c == '-' {
            out.push(c);
        } else {
            out.push('\\');
            out.push(c);
            assert(out@ =~= quoted(s@, i as nat) + seq!['\\', c]);
        }
        i = i + 1;
    }
    string_of(&out)
}

/// The command that attaches to a session, which the UI hands to the
/// terminal as it is: tmux attaches by name; herdr runs in a login bash
/// from the Workspace directory. `bin` is the manager's configured path
/// (terminals may start commands without a login shell).
pub open spec fn attach_text(manager: SessionManager, session: Seq<char>, workspace: Seq<char>, bin: Seq<char>) -> Seq<char> {
    match manager {
        SessionManager::Tmux => bin + " attach-session -t '"@ + session + "'"@,
        SessionManager::Herdr => {
            let script = "cd '"@ + workspace + "' && exec '"@ + bin + "' --session '"@ + session + "'"@;
            "/bin/bash -lc "@ + quoted(script, script.len())
        },
    }
}

/// The attach command of an open answer.
pub fn attach_command(manager: SessionManager, session: &str, workspace: &str, bin: &str) -> (r: String)
    ensures
        r@ == attach_text(manager, session@, workspace@, bin@),
{
    match manager {
        SessionManager::Tmux => {
            let mut m = chars_of(bin);
            crate::text::append_chars(&mut m, &chars_of(" attach-session -t '"));
            crate::text::append_chars(&mut m, &chars_of(session));
            crate::text::append_chars(&mut m, &chars_of("'"));
            string_of(&m)
        },
        SessionManager::Herdr => {
            let mut m = chars_of("cd '");
            crate::text::append_chars(&mut m, &chars_of(workspace));
            crate::text::append_chars(&mut m, &chars_of("' && exec '"));
            crate::text::append_chars(&mut m, &chars_of(bin));
            crate::text::append_chars(&mut m, &chars_of("' --session '"));
            crate::text::append_chars(&mut m, &chars_of(session));
            crate::text::append_chars(&mut m, &chars_of("'"));
            let script = string_of(&m);
            let q = quote_word(script.as_str());
            message("/bin/bash -lc ", &chars_of(q.as_str()))
        },
    }
}


/// What a shell reads back from a quoted word: each backslash escapes the
/// character after it.
pub open spec fn unquoted(q: Seq<char>) -> Seq<char>
    decreases q.len(),
{
    if q.len() == 0 {
        Seq::empty()
    } else if q[0] == '\\' && q.len() >= 2 {
        seq![q[1]] + unquoted(q.skip(2))
    } else {
        seq![q[0]] + unquoted(q.skip(1))
    }
}

/// One character as `printf %q` writes it.
pub open spec fn quoted_char(c: char) -> Seq<char> {
    if plain_char(c) {
        seq![c]
    } else {
        seq!['\\', c]
    }
}

/// The quoting of `s`, character by character from the front.
pub open spec fn quoted_front(s: Seq<char>) -> Seq<char>
    decreases s.len(),
{
    if s.len() == 0 {
        Seq::empty()
    } else {
        quoted_char(s[0]) + quoted_front(s.drop_first())
    }
}

proof fn lemma_quoted_front_push(a: Seq<char>, c: char)
    ensures
        quoted_front(a.push(c)) == quoted_front(a) + quoted_char(c),
    decreases a.len(),
{
    if a.len() == 0 {
        assert(a.push(c).drop_first() =~= Seq::<char>::empty());
        assert(quoted_front(Seq::<char>::empty()) == Seq::<char>::empty());
        assert(quoted_front(a.push(c).drop_first()) == Seq::<char>::empty());
        assert(a.push(c)[0] == c);
        assert(quoted_front(a.push(c)) =~= quoted_char(c));
        assert(quoted_front(a) + quoted_char(c) =~= quoted_char(c));
    } else {
        assert(a.push(c).drop_first() =~= a.drop_first().push(c));
        lemma_quoted_front_push(a.drop_first(), c);
        assert(quoted_front(a.push(c)) =~= quoted_char(a[0]) + (quoted_front(a.drop_first()) + quoted_char(c)));
    }
}

proof fn lemma_quoted_is_front(s: Seq<char>, n: nat)
    requires
        n <= s.len(),
    ensures
        quoted(s, n) == quoted_front(s.take(n as int)),
    decreases n,
{
    if n == 0 {
        assert(s.take(0) =~= Seq::<char>::empty());
    } else {
        lemma_quoted_is_front(s, (n - 1) as nat);
        assert(s.take(n as int) =~= s.take(n - 1).push(s[n - 1]));
        lemma_quoted_front_push(s.take(n - 1), s[n - 1]);
        if plain_char(s[n - 1]) {
            assert(quoted(s, n) =~= quoted(s, (n - 1) as nat) + seq![s[n - 1]]);
        }
    }
}

proof fn lemma_unquote_front(s: Seq<char>)
    ensures
        unquoted(quoted_front(s)) == s,
    decreases s.len(),
{
    if s.len() > 0 {
        let c = s[0];
        let rest = quoted_front(s.drop_first());
        lemma_unquote_front(s.drop_first());
        let q = quoted_char(c) + rest;
        if plain_char(c) {
            assert(c != '\\');
            assert(q[0] == c);
            assert(q.skip(1) =~= rest);
        } else {
            assert(q[0] == '\\');
            assert(q[1] == c);
            assert(q.skip(2) =~= rest);
        }
        assert(s =~= seq![c] + s.drop_first());
    }
}

/// The attach command quotes its script as one shell word: the shell reads
/// the quoted word back as the script itself.
pub proof fn law_quoted_word_reads_back(s: Seq<char>)
    ensures
        unquoted(quoted(s, s.len())) == s,
{
    lemma_quoted_is_front(s, s.len());
    assert(s.take(s.len() as int) =~= s);
    lemma_unquote_front(s);
}

/// A list that holds a workspace with a label has a first one with it.
proof fn lemma_first_label_exists(ws: Seq<(Seq<char>, Seq<char>)>, label: Seq<char>, k: int)
    requires
        0 <= k < ws.len(),
        ws[k].1 == label,
    ensures
        workspace_with_label(ws, label) is Some,
    decreases k,
{
    if forall|j: int| 0 <= j < k ==> ws[j].1 != label {
        assert(is_first_label(ws, label, k));
    } else {
        let j = choose|j: int| 0 <= j < k && ws[j].1 == label;
        lemma_first_label_exists(ws, label, j);
    }
}

/// Opening a Workspace again creates nothing (`ensure` is idempotent):
/// once its tmux session exists, preparing it answers the session whatever
/// creating one would do; once the herdr session lists a workspace with
/// its label, as creating one adds it, the action on it focuses or keeps
/// it and never creates another.
pub proof fn law_open_again_creates_nothing(
    repo: (Seq<char>, Seq<char>),
    id: Seq<char>,
    main: bool,
    created: bool,
    herdr_installed: bool,
    start: HerdrStart,
    socket: Option<Seq<char>>,
    main_ok: bool,
    issue_ok: bool,
    ws: Seq<(Seq<char>, Seq<char>)>,
    wid: Seq<char>,
    label: Seq<char>,
    clone_path: Seq<char>,
    cwd: Seq<char>,
)
    ensures
        ensure_text(SessionManager::Tmux, repo, id, main, true, created, herdr_installed, start, socket, main_ok, issue_ok)
            == Ok::<Seq<char>, Seq<char>>(tmux_session_text(repo, id, main)),
        label == repo.1 ==> !main_action_text(repo, main, clone_path, ws.push((wid, label))).1,
        !issue_action_text(Some(label), cwd, ws.push((wid, label))).1,
{
    let w = ws.push((wid, label));
    assert(w[ws.len() as int].1 == label);
    lemma_first_label_exists(w, label, ws.len() as int);
}

/// Starting a herdr session spawns its server only after a read of the
/// session list found it not running, and only as the first thing done:
/// a running session is never spawned again, and no server is spawned
/// twice.
pub proof fn law_herdr_start_spawns_only_a_stopped_session(s: HerdrStartState, e: HerdrStartEvent)
    requires
        herdr_start_fits(s, e),
    ensures
        herdr_start_spec(s, e).1 is Spawn <==> (s is Probe && e == HerdrStartEvent::Running(false)),
        (s is Probe && e == HerdrStartEvent::Running(true)) ==> herdr_start_spec(s, e) == (
            HerdrStartState::Over,
            HerdrStartAction::Done(HerdrStart::Running),
        ),
{
}

/// After the spawn the session list is read at most fifty times: every
/// state reached keeps the count of reads below fifty, a wait is followed
/// by one more read, and the fiftieth read that does not see the session
/// running ends the start as stalled.
pub proof fn law_herdr_start_reads_at_most_fifty_times(s: HerdrStartState, e: HerdrStartEvent)
    requires
        herdr_start_fits(s, e),
    ensures
        herdr_start_spec(s, e).0 matches HerdrStartState::Polling(k) ==> k < herdr_start_reads(),
        herdr_start_spec(s, e).1 is Wait ==> herdr_start_spec(s, e).0 is Polling,
        (s matches HerdrStartState::Polling(n) && n + 1 == herdr_start_reads() && e == HerdrStartEvent::Running(false))
            ==> herdr_start_spec(s, e).1 == HerdrStartAction::Done(HerdrStart::Stalled),
{
}

} // verus!
