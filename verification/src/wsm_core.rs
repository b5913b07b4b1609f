//! The github.com-only core of the JSON API (`wsm-core`): clones in the
//! default ghq root, Workspace paths under `~/worktrees/github.com`, sessions
//! named `<ns>.<repo>[-<id>]`, issues as numbers, and the gh CLI as the
//! tracker. The library builds names and paths and reads the tools'
//! answers; running the tools is the caller's.
use vstd::prelude::*;
use crate::text::{chars_of, lines, lines_of, split_once, string_of, strip_prefix, trim, views};
use crate::domains::{main_word, parse_repo_ref, path_join, replace_char, valid_project, valid_user, WorkspaceId};
use crate::settings::{message, opt_text, SessionManager};
use crate::tracker::string_views;
use crate::json::{json_of_text, parse_json, Json};

verus! {

// ---------------------------------------------------------------------------
// Names and paths
// ---------------------------------------------------------------------------

/// `<home>/ghq/github.com/<ns>/<repo>`.
pub open spec fn core_ghq_text(home: Seq<char>, ns_repo: Seq<char>) -> Seq<char> {
    path_join(path_join(home, "ghq/github.com"@), ns_repo)
}

/// The clone of a github.com repository in the default ghq root.
pub fn ghq_path(home: &str, ns_repo: &str) -> (p: String)
    ensures
        p@ == core_ghq_text(home@, ns_repo@),
{
    let a = crate::domains::join_path(&chars_of(home), &chars_of("ghq/github.com"));
    string_of(&crate::domains::join_path(&a, &chars_of(ns_repo)))
}

/// The directory of a Workspace: the clone for `main`,
/// `<home>/worktrees/github.com/<ns>/<repo>/<id>` for an issue.
pub open spec fn core_workspace_text(home: Seq<char>, ns_repo: Seq<char>, id: Seq<char>, main: bool) -> Seq<char> {
    if main {
        core_ghq_text(home, ns_repo)
    } else {
        path_join(path_join(path_join(home, "worktrees/github.com"@), ns_repo), id)
    }
}

/// The directory of a Workspace.
pub fn workspace_path(home: &str, ns_repo: &str, id: &WorkspaceId) -> (p: String)
    ensures
        p@ == core_workspace_text(home@, ns_repo@, id.text(), id is Main),
{
    match id {
        WorkspaceId::Main => ghq_path(home, ns_repo),
        WorkspaceId::Issue(issue) => {
            let a = crate::domains::join_path(&chars_of(home), &chars_of("worktrees/github.com"));
            let b = crate::domains::join_path(&a, &chars_of(ns_repo));
            string_of(&crate::domains::join_path(&b, &chars_of(issue.as_str())))
        },
    }
}

/// `<ns>.<repo>` for `main`, `<ns>.<repo>-<id>` for an issue (the `/` of
/// the repository made a `.`).
pub open spec fn core_session_text(ns_repo: Seq<char>, id: Seq<char>, main: bool) -> Seq<char> {
    let key = replace_char(ns_repo, '/', '.');
    if main {
        key
    } else {
        key + "-"@ + id
    }
}

fn replaced(s: &str, from: char, to: char) -> (r: Vec<char>)
    ensures
        r@ == replace_char(s@, from, to),
{
    let cs = chars_of(s);
    let mut out: Vec<char> = Vec::new();
    let mut i: usize = 0;
    while i < cs.len()
        invariant
            i <= cs@.len(),
            cs@ == s@,
            out@ == replace_char(s@, from, to).subrange(0, i as int),
        decreases cs.len() - i,
    {
        out.push(if cs[i] == from {
            to
        } else {
            cs[i]
        });
        assert(out@ =~= replace_char(s@, from, to).subrange(0, i + 1));
        i = i + 1;
    }
    assert(out@ =~= replace_char(s@, from, to));
    out
}

/// The session of a Workspace (herdr keeps it as it is).
pub fn session_name(ns_repo: &str, id: &WorkspaceId) -> (s: String)
    ensures
        s@ == core_session_text(ns_repo@, id.text(), id is Main),
{
    let key = replaced(ns_repo, '/', '.');
    match id {
        WorkspaceId::Main => string_of(&key),
        WorkspaceId::Issue(issue) => {
            let mut m = key;
            crate::text::append_chars(&mut m, &chars_of("-"));
            crate::text::append_chars(&mut m, &chars_of(issue.as_str()));
            string_of(&m)
        },
    }
}

/// The tmux session of a Workspace: tmux silently turns the `.` of session
/// names into `_`, so the name is given with `_` already.
pub fn tmux_session_name(ns_repo: &str, id: &WorkspaceId) -> (s: String)
    ensures
        s@ == replace_char(core_session_text(ns_repo@, id.text(), id is Main), '.', '_'),
{
    let name = session_name(ns_repo, id);
    string_of(&replaced(name.as_str(), '.', '_'))
}

/// `<ns>/<repo>`: exactly two segments, a user name and a repository name.
/// Namespaces hold no dot, which keeps the `/` to `.` mapping of session
/// names one-to-one.
pub fn is_valid_repo(value: &str) -> (b: bool)
    ensures
        b == parse_repo_ref(value@) is Some,
{
    crate::domains::RepoRef::parse(value).is_some()
}

/// An issue of this core: `main` or a number.
pub open spec fn core_issue(s: Seq<char>) -> bool {
    s == main_word() || valid_project(s)
}

/// `main` or digits only.
pub fn is_valid_issue(value: &str) -> (b: bool)
    ensures
        b == core_issue(value@),
{
    let cs = chars_of(value);
    let is_main = cs.len() == 4 && cs[0] == 'm' && cs[1] == 'a' && cs[2] == 'i' && cs[3] == 'n';
    assert(is_main == (value@ == main_word())) by {
        if value@ == main_word() {
            assert(value@.len() == 4);
        }
        if is_main {
            assert(value@ =~= main_word());
        }
    }
    is_main || crate::domains::is_valid_project(value)
}

// ---------------------------------------------------------------------------
// The store (`ghq list`)
// ---------------------------------------------------------------------------

/// The github.com repositories among the first `n` lines of `ghq list`.
pub open spec fn github_lines(ls: Seq<Seq<char>>, n: nat) -> Seq<Seq<char>>
    decreases n,
{
    if n == 0 || n > ls.len() {
        Seq::empty()
    } else {
        match strip_prefix(ls[n - 1], "github.com/"@) {
            Some(r) => github_lines(ls, (n - 1) as nat).push(r),
            None => github_lines(ls, (n - 1) as nat),
        }
    }
}

/// The local github.com repositories (`ghq list`), sorted; none when ghq
/// failed.
pub fn list_ns_repos(output: Option<&str>) -> (r: Vec<String>)
    ensures
        string_views(r@) == match opt_text(output) {
            Some(out) => {
                let found = github_lines(lines(out), lines(out).len());
                crate::devcontainer::sorted_names(found, found.len())
            },
            None => Seq::<Seq<char>>::empty(),
        },
{
    let mut out: Vec<String> = Vec::new();
    let text = match output {
        Some(t) => t,
        None => {
            assert(string_views(out@) =~= Seq::<Seq<char>>::empty());
            return out;
        },
    };
    let ls = lines_of(&chars_of(text));
    let ghost lv = views(ls@);
    let prefix = chars_of("github.com/");
    let mut found: Vec<String> = Vec::new();
    let mut i: usize = 0;
    assert(string_views(found@) =~= Seq::<Seq<char>>::empty());
    while i < ls.len()
        invariant
            i <= ls@.len(),
            lv == views(ls@),
            lv == lines(text@),
            prefix@ == "github.com/"@,
            string_views(found@) == github_lines(lv, i as nat),
        decreases ls.len() - i,
    {
        assert(lv[i as int] == ls@[i as int]@);
        let ghost before = string_views(found@);
        if let Some(r) = crate::text::strip_prefix_chars(&ls[i], &prefix) {
            found.push(string_of(&r));
            assert(string_views(found@) =~= before.push(r@));
        }
        i = i + 1;
    }
    let ghost fv = string_views(found@);
    let mut sorted: Vec<Vec<char>> = Vec::new();
    let mut k: usize = 0;
    assert(views(sorted@) =~= crate::devcontainer::sorted_names(fv, 0));
    while k < found.len()
        invariant
            k <= found@.len(),
            fv == string_views(found@),
            views(sorted@) == crate::devcontainer::sorted_names(fv, k as nat),
        decreases found.len() - k,
    {
        assert(fv[k as int] == found@[k as int]@);
        crate::devcontainer::insert_name(&mut sorted, chars_of(found[k].as_str()));
        k = k + 1;
    }
    let ghost sv = views(sorted@);
    let mut j: usize = 0;
    assert(string_views(out@) =~= sv.subrange(0, 0));
    while j < sorted.len()
        invariant
            j <= sorted@.len(),
            sv == views(sorted@),
            string_views(out@) == sv.subrange(0, j as int),
        decreases sorted.len() - j,
    {
        assert(sv[j as int] == sorted@[j as int]@);
        let ghost before = string_views(out@);
        out.push(string_of(&sorted[j]));
        assert(string_views(out@) =~= before.push(sv[j as int]));
        assert(string_views(out@) =~= sv.subrange(0, j + 1));
        j = j + 1;
    }
    assert(sv.subrange(0, j as int) =~= sv);
    out
}

/// The github.com repositories among the first `n` lines of `ghq list -p`:
/// what follows the first `/github.com/` of each line.
pub open spec fn github_paths(ls: Seq<Seq<char>>, n: nat) -> Seq<Seq<char>>
    decreases n,
{
    if n == 0 || n > ls.len() {
        Seq::empty()
    } else {
        match crate::text::split_once_text(ls[n - 1], "/github.com/"@) {
            Some((_, r)) => github_paths(ls, (n - 1) as nat).push(r),
            None => github_paths(ls, (n - 1) as nat),
        }
    }
}

/// The local github.com repositories in ghq's order (`ghq list -p`).
pub fn list_ns_repos_in_ghq_order(output: Option<&str>) -> (r: Vec<String>)
    ensures
        string_views(r@) == match opt_text(output) {
            Some(out) => github_paths(lines(out), lines(out).len()),
            None => Seq::<Seq<char>>::empty(),
        },
{
    let mut out: Vec<String> = Vec::new();
    assert(string_views(out@) =~= Seq::<Seq<char>>::empty());
    let text = match output {
        Some(t) => t,
        None => return out,
    };
    let ls = lines_of(&chars_of(text));
    let ghost lv = views(ls@);
    let sep = chars_of("/github.com/");
    let mut i: usize = 0;
    while i < ls.len()
        invariant
            i <= ls@.len(),
            lv == views(ls@),
            lv == lines(text@),
            sep@ == "/github.com/"@,
            string_views(out@) == github_paths(lv, i as nat),
        decreases ls.len() - i,
    {
        assert(lv[i as int] == ls@[i as int]@);
        let ghost before = string_views(out@);
        if let Some((_, r)) = crate::text::split_once_seq(&ls[i], &sep) {
            out.push(string_of(&r));
            assert(string_views(out@) =~= before.push(r@));
        }
        i = i + 1;
    }
    out
}

// ---------------------------------------------------------------------------
// The tracker (gh)
// ---------------------------------------------------------------------------

/// The authenticated gh user: what `gh api user -q .login` printed,
/// trimmed, when not empty.
pub fn resolve_user(output: Option<&str>) -> (r: Option<String>)
    ensures
        match r {
            Some(u) => opt_text(output) matches Some(out) && trim(out).len() > 0 && u@ == trim(out),
            None => !(opt_text(output) matches Some(out) && trim(out).len() > 0),
        },
{
    let out = match output {
        Some(o) => o,
        None => return None,
    };
    let t = crate::text::trim_chars(&chars_of(out));
    if t.len() > 0 {
        Some(string_of(&t))
    } else {
        None
    }
}

/// The documents among the first `n` lines of what gh printed with a jq
/// filter (one JSON object per line): the lines that read as JSON.
pub open spec fn json_lines(ls: Seq<Seq<char>>, n: nat) -> Seq<Json>
    decreases n,
{
    if n == 0 || n > ls.len() {
        Seq::empty()
    } else {
        match json_of_text(ls[n - 1]) {
            Some(j) => json_lines(ls, (n - 1) as nat).push(j),
            None => json_lines(ls, (n - 1) as nat),
        }
    }
}

/// The open projects gh listed (`{number, title}` per line, closed ones
/// filtered out by gh's jq filter); none when gh failed.
pub fn open_projects(output: Option<&str>) -> (r: Vec<Json>)
    ensures
        r@ == match opt_text(output) {
            Some(out) => json_lines(lines(out), lines(out).len()),
            None => Seq::<Json>::empty(),
        },
{
    let mut out: Vec<Json> = Vec::new();
    let text = match output {
        Some(t) => t,
        None => return out,
    };
    let ls = lines_of(&chars_of(text));
    let ghost lv = views(ls@);
    let mut i: usize = 0;
    while i < ls.len()
        invariant
            i <= ls@.len(),
            lv == views(ls@),
            lv == lines(text@),
            out@ == json_lines(lv, i as nat),
        decreases ls.len() - i,
    {
        assert(lv[i as int] == ls@[i as int]@);
        let line = string_of(&ls[i]);
        if let Some(j) = parse_json(line.as_str()) {
            out.push(j);
        }
        i = i + 1;
    }
    out
}

/// The (number, title) pairs among the first `n` lines of the issue list
/// (`<number>\t<title>` each).
pub open spec fn tab_pairs(ls: Seq<Seq<char>>, n: nat) -> Seq<(Seq<char>, Seq<char>)>
    decreases n,
{
    if n == 0 || n > ls.len() {
        Seq::empty()
    } else {
        match split_once(ls[n - 1], '\t') {
            Some(p) => tab_pairs(ls, (n - 1) as nat).push(p),
            None => tab_pairs(ls, (n - 1) as nat),
        }
    }
}

/// The open issues (number, title) gh listed; none when gh failed.
pub fn open_issues(output: Option<&str>) -> (r: Vec<(String, String)>)
    ensures
        crate::worktree::string_pairs(r@) == match opt_text(output) {
            Some(out) => tab_pairs(lines(out), lines(out).len()),
            None => Seq::<(Seq<char>, Seq<char>)>::empty(),
        },
{
    let mut out: Vec<(String, String)> = Vec::new();
    assert(crate::worktree::string_pairs(out@) =~= Seq::<(Seq<char>, Seq<char>)>::empty());
    let text = match output {
        Some(t) => t,
        None => return out,
    };
    let ls = lines_of(&chars_of(text));
    let ghost lv = views(ls@);
    let mut i: usize = 0;
    while i < ls.len()
        invariant
            i <= ls@.len(),
            lv == views(ls@),
            lv == lines(text@),
            crate::worktree::string_pairs(out@) == tab_pairs(lv, i as nat),
        decreases ls.len() - i,
    {
        assert(lv[i as int] == ls@[i as int]@);
        let ghost before = crate::worktree::string_pairs(out@);
        if let Some((a, b)) = crate::text::split_once_chars(&ls[i], '\t') {
            out.push((string_of(&a), string_of(&b)));
            assert(crate::worktree::string_pairs(out@) =~= before.push((a@, b@)));
        }
        i = i + 1;
    }
    out
}

/// The repositories of a project gh listed: the non-empty lines; none when
/// gh failed.
pub fn project_repos(output: Option<&str>) -> (r: Vec<String>)
    ensures
        string_views(r@) == match opt_text(output) {
            Some(out) => crate::text::nonempty_lines(lines(out), lines(out).len()),
            None => Seq::<Seq<char>>::empty(),
        },
{
    crate::text::nonempty_lines_of(output)
}

/// `s` without the `\n` it ends with (all of them).
pub open spec fn without_newlines(s: Seq<char>) -> Seq<char>
    decreases s.len(),
{
    if s.len() > 0 && s.last() == '\n' {
        without_newlines(s.drop_last())
    } else {
        s
    }
}

fn trim_newlines(s: &str) -> (r: Vec<char>)
    ensures
        r@ == without_newlines(s@),
{
    let mut cs = chars_of(s);
    while cs.len() > 0 && cs[cs.len() - 1] == '\n'
        invariant
            without_newlines(cs@) == without_newlines(s@),
        decreases cs.len(),
    {
        let ghost before = cs@;
        cs.pop();
        assert(cs@ =~= before.drop_last());
    }
    cs
}

/// The title and state of a single issue (`<title>\t<state>`), if gh
/// answered that.
pub fn issue_title_and_state(output: Option<&str>) -> (r: Option<(String, String)>)
    ensures
        match r {
            Some((t, s)) => opt_text(output) matches Some(out) && split_once(without_newlines(out), '\t') == Some((t@, s@)),
            None => !(opt_text(output) matches Some(out) && split_once(without_newlines(out), '\t') is Some),
        },
{
    let out = match output {
        Some(o) => o,
        None => return None,
    };
    match crate::text::split_once_chars(&trim_newlines(out), '\t') {
        Some((a, b)) => Some((string_of(&a), string_of(&b))),
        None => None,
    }
}

/// The title of a single issue, if gh answered a non-empty one.
pub fn issue_title(output: Option<&str>) -> (r: Option<String>)
    ensures
        match r {
            Some(t) => opt_text(output) matches Some(out) && without_newlines(out).len() > 0 && t@ == without_newlines(out),
            None => !(opt_text(output) matches Some(out) && without_newlines(out).len() > 0),
        },
{
    let out = match output {
        Some(o) => o,
        None => return None,
    };
    let t = trim_newlines(out);
    if t.len() > 0 {
        Some(string_of(&t))
    } else {
        None
    }
}

// ---------------------------------------------------------------------------
// Sessions
// ---------------------------------------------------------------------------

/// A session exists with either manager (tmux by name, herdr running it).
pub fn workspace_session_exists(session: &str, tmux_exists: bool, herdr_sessions_output: Option<&str>) -> (b: bool)
    ensures
        b == (tmux_exists || crate::session::herdr_running_text(opt_text(herdr_sessions_output), session@)),
{
    tmux_exists || crate::session::herdr_session_running(herdr_sessions_output, session)
}

/// The command that prepares a session, idempotently: tmux's
/// `new-session`, only when the session does not exist; nothing for herdr,
/// which creates sessions when attaching. [`ensure`] then reads whether it
/// succeeded.
pub fn prepare(manager: SessionManager, session: &str, cwd: &str, tmux_exists: bool) -> (r: Option<Vec<String>>)
    ensures
        r is Some <==> (manager == SessionManager::Tmux && !tmux_exists),
        r matches Some(a) ==> string_views(a@) == seq!["new-session"@, "-d"@, "-s"@, session@, "-c"@, cwd@],
{
    match manager {
        SessionManager::Tmux => crate::session::tmux_prepare(session, cwd, tmux_exists),
        SessionManager::Herdr => None,
    }
}

/// Preparing a session: tmux creates it when missing (failing with
/// `Failed to create session: <name>`); herdr creates sessions when
/// attaching, so it only has to be installed.
pub fn ensure(manager: SessionManager, session: &str, tmux_exists: bool, tmux_created: bool, herdr_installed: bool) -> (r: Result<(), String>)
    ensures
        match manager {
            SessionManager::Tmux => match r {
                Ok(()) => tmux_exists || tmux_created,
                Err(e) => !(tmux_exists || tmux_created) && e@ == "Failed to create session: "@ + session@,
            },
            SessionManager::Herdr => match r {
                Ok(()) => herdr_installed,
                Err(e) => !herdr_installed && e@ == "herdr not installed"@,
            },
        },
{
    match manager {
        SessionManager::Tmux => if tmux_exists || tmux_created {
            Ok(())
        } else {
            Err(message("Failed to create session: ", &chars_of(session)))
        },
        SessionManager::Herdr => if herdr_installed {
            Ok(())
        } else {
            Err("herdr not installed".to_owned())
        },
    }
}

/// Tearing down a session with both managers: tmux kills it; herdr, when
/// installed, deletes it. Failures are ignored (idempotent).
pub fn remove_workspace_sessions(session: &str, herdr_installed: bool) -> (r: Vec<(SessionManager, Vec<String>)>)
    ensures
        r@.len() == if herdr_installed { 2int } else { 1int },
        r@[0].0 == SessionManager::Tmux,
        string_views(r@[0].1@) == seq!["kill-session"@, "-t"@, "="@ + session@],
        herdr_installed ==> r@[1].0 == SessionManager::Herdr
            && string_views(r@[1].1@) == seq!["session"@, "delete"@, session@, "--json"@],
{
    let kill = vec!["kill-session".to_owned(), "-t".to_owned(), message("=", &chars_of(session))];
    assert(string_views(kill@) =~= seq!["kill-session"@, "-t"@, "="@ + session@]);
    let mut out: Vec<(SessionManager, Vec<String>)> = Vec::new();
    out.push((SessionManager::Tmux, kill));
    if herdr_installed {
        let del = vec!["session".to_owned(), "delete".to_owned(), session.to_owned(), "--json".to_owned()];
        assert(string_views(del@) =~= seq!["session"@, "delete"@, session@, "--json"@]);
        out.push((SessionManager::Herdr, del));
    }
    out
}

/// The attach command: tmux by session name; herdr runs in a login bash
/// from the Workspace. The binary is the one found on the `PATH`, else
/// `/opt/homebrew/bin/tmux` or `<home>/.local/bin/herdr`.
pub open spec fn core_attach_text(
    manager: SessionManager,
    session: Seq<char>,
    workspace: Seq<char>,
    home: Seq<char>,
    found: Option<Seq<char>>,
) -> Seq<char> {
    let bin = match found {
        Some(b) => b,
        None => match manager {
            SessionManager::Tmux => "/opt/homebrew/bin/tmux"@,
            SessionManager::Herdr => path_join(home, ".local/bin/herdr"@),
        },
    };
    crate::session::attach_text(manager, session, workspace, bin)
}

/// The attach command of an open answer.
pub fn attach_command(manager: SessionManager, session: &str, workspace: &str, home: &str, found: Option<&str>) -> (r: String)
    ensures
        r@ == core_attach_text(manager, session@, workspace@, home@, opt_text(found)),
{
    let bin = match found {
        Some(b) => b.to_owned(),
        None => match manager {
            SessionManager::Tmux => "/opt/homebrew/bin/tmux".to_owned(),
            SessionManager::Herdr => string_of(&crate::domains::join_path(&chars_of(home), &chars_of(".local/bin/herdr"))),
        },
    };
    crate::session::attach_command(manager, session, workspace, bin.as_str())
}


// ---------------------------------------------------------------------------
// Arguments
// ---------------------------------------------------------------------------

/// The value of a flag here: what follows its first occurrence (an empty
/// value is a value).
pub open spec fn first_flag_text(args: Seq<Seq<char>>, flag: Seq<char>) -> Option<Seq<char>> {
    match crate::text::first_index(args, flag) {
        Some(i) => if i + 1 < args.len() {
            Some(args[i + 1])
        } else {
            None
        },
        None => None,
    }
}

/// The value after the first occurrence of a flag.
pub fn flag_value(args: &[String], flag: &str) -> (r: Option<String>)
    ensures
        match r {
            Some(v) => first_flag_text(string_views(args@), flag@) == Some(v@),
            None => first_flag_text(string_views(args@), flag@) is None,
        },
{
    let ghost av = string_views(args@);
    let n = args.len();
    let mut i: usize = 0;
    while i < n
        invariant
            i <= n,
            n == args@.len(),
            av == string_views(args@),
            forall|k: int| 0 <= k < i ==> av[k] != flag@,
        decreases n - i,
    {
        assert(av[i as int] == args@[i as int]@);
        if crate::text::str_eq(args[i].as_str(), flag) {
            proof {
                crate::text::lemma_first_index(av, flag@, i as int);
            }
            if i + 1 < n {
                assert(av[i + 1] == args@[i + 1]@);
                return Some(crate::text::copy_string(&args[i + 1]));
            }
            return None;
        }
        i = i + 1;
    }
    proof {
        crate::text::lemma_no_first_index(av, flag@);
    }
    None
}

/// What an argument of the core names: each kind has its grammar.
#[derive(Clone, Copy, Debug, PartialEq, Eq)]
pub enum ArgKind {
    /// `<ns>/<repo>`.
    Repo,
    /// `main` or an issue number (`--issue`).
    Issue,
    /// `main` or an issue number (`--target` of `remove`).
    Target,
    /// A GitHub user name.
    User,
}

/// The word an argument kind is named by in messages.
pub open spec fn arg_label_text(kind: ArgKind) -> Seq<char> {
    match kind {
        ArgKind::Repo => "repo"@,
        ArgKind::Issue => "issue"@,
        ArgKind::Target => "target"@,
        ArgKind::User => "user"@,
    }
}

/// `value` follows the grammar of its kind.
pub open spec fn valid_arg_text(kind: ArgKind, value: Seq<char>) -> bool {
    match kind {
        ArgKind::Repo => parse_repo_ref(value) is Some,
        ArgKind::Issue | ArgKind::Target => core_issue(value),
        ArgKind::User => valid_user(value),
    }
}

/// `Invalid <kind>: <value>`.
pub open spec fn invalid_arg_text(kind: ArgKind, value: Seq<char>) -> Seq<char> {
    "Invalid "@ + arg_label_text(kind) + ": "@ + value
}

impl ArgKind {
    /// The word the kind is named by in messages.
    pub fn label(&self) -> (s: &'static str)
        ensures
            s@ == arg_label_text(*self),
    {
        match self {
            ArgKind::Repo => "repo",
            ArgKind::Issue => "issue",
            ArgKind::Target => "target",
            ArgKind::User => "user",
        }
    }
}

/// An argument checked against the grammar of its kind: the value itself,
/// or `Invalid <kind>: <value>`.
pub fn validated(kind: ArgKind, value: String) -> (r: Result<String, String>)
    ensures
        valid_arg_text(kind, value@) ==> r == Ok::<String, String>(value),
        !valid_arg_text(kind, value@) ==> (r matches Err(e) && e@ == invalid_arg_text(kind, value@)),
{
    let ok = match kind {
        ArgKind::Repo => is_valid_repo(value.as_str()),
        ArgKind::Issue | ArgKind::Target => is_valid_issue(value.as_str()),
        ArgKind::User => crate::domains::is_valid_user(value.as_str()),
    };
    if ok {
        Ok(value)
    } else {
        let mut m = chars_of("Invalid ");
        crate::text::append_chars(&mut m, &chars_of(kind.label()));
        crate::text::append_chars(&mut m, &chars_of(": "));
        crate::text::append_chars(&mut m, &chars_of(value.as_str()));
        Err(string_of(&m))
    }
}

/// A required flag: `<flag> required` when it has no value, else its value
/// checked against the grammar of its kind.
pub fn required(args: &[String], flag: &str, kind: ArgKind) -> (r: Result<String, String>)
    ensures
        match first_flag_text(string_views(args@), flag@) {
            None => r matches Err(e) && e@ == flag@ + " required"@,
            Some(v) => if valid_arg_text(kind, v) {
                r matches Ok(x) && x@ == v
            } else {
                r matches Err(e) && e@ == invalid_arg_text(kind, v)
            },
        },
{
    match flag_value(args, flag) {
        Some(v) => validated(kind, v),
        None => {
            let mut m = chars_of(flag);
            crate::text::append_chars(&mut m, &chars_of(" required"));
            Err(string_of(&m))
        },
    }
}

/// The user whose projects are listed: the `--user` flag, else the user gh
/// is authenticated as (`resolved`, what `resolve_user` read), checked as
/// a user name; `failed to resolve GitHub user` when neither is there.
pub fn project_user(args: &[String], resolved: Option<String>) -> (r: Result<String, String>)
    ensures
        match first_flag_text(string_views(args@), "--user"@) {
            Some(v) => if valid_user(v) {
                r matches Ok(x) && x@ == v
            } else {
                r matches Err(e) && e@ == invalid_arg_text(ArgKind::User, v)
            },
            None => match resolved {
                Some(u) => if valid_user(u@) {
                    r matches Ok(x) && x@ == u@
                } else {
                    r matches Err(e) && e@ == invalid_arg_text(ArgKind::User, u@)
                },
                None => r matches Err(e) && e@ == "failed to resolve GitHub user"@,
            },
        },
{
    let user = match flag_value(args, "--user") {
        Some(u) => u,
        None => match resolved {
            Some(u) => u,
            None => return Err("failed to resolve GitHub user".to_string()),
        },
    };
    validated(ArgKind::User, user)
}

// ---------------------------------------------------------------------------
// The issue list
// ---------------------------------------------------------------------------

/// A row of the core's issue list.
#[derive(Clone, Debug, PartialEq, Eq)]
pub struct CoreIssueRow {
    pub id: String,
    pub title: String,
    pub active: bool,
    pub closed: bool,
    pub devcontainer: String,
}

/// A row of the core's issue list, as text.
pub struct CoreIssueRowView {
    pub id: Seq<char>,
    pub title: Seq<char>,
    pub active: bool,
    pub closed: bool,
    pub devcontainer: Seq<char>,
}

impl View for CoreIssueRow {
    type V = CoreIssueRowView;

    open spec fn view(&self) -> CoreIssueRowView {
        CoreIssueRowView {
            id: self.id@,
            title: self.title@,
            active: self.active,
            closed: self.closed,
            devcontainer: self.devcontainer@,
        }
    }
}

/// The rows as text.
pub open spec fn core_row_views(v: Seq<CoreIssueRow>) -> Seq<CoreIssueRowView> {
    v.map_values(|r: CoreIssueRow| r@)
}

/// The ids of the open issues.
pub open spec fn open_ids_text(open: Seq<(Seq<char>, Seq<char>)>) -> Seq<Seq<char>> {
    open.map_values(|p: (Seq<char>, Seq<char>)| p.0)
}

/// `(id, title)` pairs as text.
pub open spec fn pair_views(v: Seq<(String, String)>) -> Seq<(Seq<char>, Seq<char>)> {
    v.map_values(|p: (String, String)| (p.0@, p.1@))
}

/// What was gathered of each orphaned worktree, as text.
pub open spec fn orphan_answer_views(v: Seq<(Option<String>, String)>) -> Seq<(Option<Seq<char>>, Seq<char>)> {
    v.map_values(|p: (Option<String>, String)| (opt_text_of(p.0), p.1@))
}

/// An optional string as text.
pub open spec fn opt_text_of(o: Option<String>) -> Option<Seq<char>> {
    match o {
        Some(s) => Some(s@),
        None => None,
    }
}

/// The core's issue list: `main` first (active when its session exists),
/// then the open issues in gh's order (active when their worktree is),
/// then the active worktrees whose issue is not open, in worktree order,
/// closed, with the title gh gives (`unknown` when it gives none). Each
/// row carries its devcontainer state.
pub open spec fn core_issue_rows_text(
    main_active: bool,
    main_dc: Seq<char>,
    open: Seq<(Seq<char>, Seq<char>)>,
    open_dcs: Seq<Seq<char>>,
    active_ids: Seq<Seq<char>>,
    orphan_answers: Seq<(Option<Seq<char>>, Seq<char>)>,
) -> Seq<CoreIssueRowView> {
    let orphans = crate::usecases::orphans_in(active_ids, open_ids_text(open), active_ids.len());
    seq![CoreIssueRowView { id: "main"@, title: "main"@, active: main_active, closed: false, devcontainer: main_dc }]
        + Seq::new(
        open.len(),
        |i: int| CoreIssueRowView {
            id: open[i].0,
            title: open[i].1,
            active: active_ids.contains(open[i].0),
            closed: false,
            devcontainer: open_dcs[i],
        },
    ) + Seq::new(
        orphans.len(),
        |k: int| CoreIssueRowView {
            id: orphans[k],
            title: match orphan_answers[k].0 {
                Some(t) => t,
                None => "unknown"@,
            },
            active: true,
            closed: true,
            devcontainer: orphan_answers[k].1,
        },
    )
}

/// The active worktrees whose issue is not among the open ones, in
/// worktree order.
pub fn core_orphan_ids(active_ids: &[String], open: &[(String, String)]) -> (r: Vec<String>)
    ensures
        string_views(r@) == crate::usecases::orphans_in(
            string_views(active_ids@),
            open_ids_text(pair_views(open@)),
            active_ids@.len(),
        ),
{
    let ghost av = string_views(active_ids@);
    let ghost ov = open_ids_text(pair_views(open@));
    let mut out: Vec<String> = Vec::new();
    let n = active_ids.len();
    let mut i: usize = 0;
    assert(string_views(out@) =~= Seq::<Seq<char>>::empty());
    while i < n
        invariant
            i <= n,
            n == active_ids@.len(),
            av == string_views(active_ids@),
            ov == open_ids_text(pair_views(open@)),
            string_views(out@) == crate::usecases::orphans_in(av, ov, i as nat),
        decreases n - i,
    {
        assert(av[i as int] == active_ids@[i as int]@);
        let mut found = false;
        let mut k: usize = 0;
        let m = open.len();
        while k < m
            invariant
                k <= m,
                m == open@.len(),
                ov == open_ids_text(pair_views(open@)),
                ov.len() == m,
                found == exists|j: int| 0 <= j < k && ov[j] == av[i as int],
                i < av.len(),
                av == string_views(active_ids@),
            decreases m - k,
        {
            assert(ov[k as int] == open@[k as int].0@);
            if crate::text::str_eq(open[k].0.as_str(), active_ids[i].as_str()) {
                found = true;
            }
            k = k + 1;
        }
        assert(found == ov.contains(av[i as int]));
        let ghost before = string_views(out@);
        if !found {
            out.push(crate::text::copy_string(&active_ids[i]));
            assert(string_views(out@) =~= before.push(av[i as int]));
        }
        i = i + 1;
    }
    out
}

/// The core's issue list from what the caller gathered: whether `main`'s
/// session exists and its devcontainer state, the open issues gh listed
/// (`open_issues`) with the devcontainer state of each, the active
/// worktrees (in worktree order) and, for each of [`core_orphan_ids`], the
/// title gh gives and the devcontainer state.
pub fn core_issue_rows(
    main_active: bool,
    main_dc: &str,
    open: &[(String, String)],
    open_dcs: &[String],
    active_ids: &[String],
    orphan_answers: &[(Option<String>, String)],
) -> (r: Vec<CoreIssueRow>)
    requires
        open_dcs@.len() == open@.len(),
        orphan_answers@.len() == crate::usecases::orphans_in(
            string_views(active_ids@),
            open_ids_text(pair_views(open@)),
            active_ids@.len(),
        ).len(),
    ensures
        core_row_views(r@) == core_issue_rows_text(
            main_active,
            main_dc@,
            pair_views(open@),
            string_views(open_dcs@),
            string_views(active_ids@),
            orphan_answer_views(orphan_answers@),
        ),
{
    let ghost pv = pair_views(open@);
    let ghost dv = string_views(open_dcs@);
    let ghost av = string_views(active_ids@);
    let ghost oav = orphan_answer_views(orphan_answers@);
    let mut rows: Vec<CoreIssueRow> = Vec::new();
    rows.push(CoreIssueRow {
        id: "main".to_string(),
        title: "main".to_string(),
        active: main_active,
        closed: false,
        devcontainer: main_dc.to_string(),
    });
    let ghost head = core_row_views(rows@);
    assert(head =~= seq![CoreIssueRowView { id: "main"@, title: "main"@, active: main_active, closed: false, devcontainer: main_dc@ }]);
    let n = open.len();
    let mut i: usize = 0;
    while i < n
        invariant
            i <= n,
            n == open@.len(),
            n == open_dcs@.len(),
            pv == pair_views(open@),
            dv == string_views(open_dcs@),
            av == string_views(active_ids@),
            rows@.len() == i + 1,
            core_row_views(rows@) =~= head + Seq::new(
                i as nat,
                |j: int| CoreIssueRowView {
                    id: pv[j].0,
                    title: pv[j].1,
                    active: av.contains(pv[j].0),
                    closed: false,
                    devcontainer: dv[j],
                },
            ),
        decreases n - i,
    {
        let active = crate::usecases::contains_text(active_ids, open[i].0.as_str());
        let row = CoreIssueRow {
            id: crate::text::copy_string(&open[i].0),
            title: crate::text::copy_string(&open[i].1),
            active,
            closed: false,
            devcontainer: crate::text::copy_string(&open_dcs[i]),
        };
        let ghost before = core_row_views(rows@);
        rows.push(row);
        assert(core_row_views(rows@) =~= before.push(row@));
        i = i + 1;
    }
    let ghost mid = core_row_views(rows@);
    let ids = core_orphan_ids(active_ids, open);
    let ghost ov = string_views(ids@);
    let m = ids.len();
    let mut k: usize = 0;
    while k < m
        invariant
            k <= m,
            m == ids@.len(),
            m == orphan_answers@.len(),
            ov == string_views(ids@),
            oav == orphan_answer_views(orphan_answers@),
            core_row_views(rows@) =~= mid + Seq::new(
                k as nat,
                |j: int| CoreIssueRowView {
                    id: ov[j],
                    title: match oav[j].0 {
                        Some(t) => t,
                        None => "unknown"@,
                    },
                    active: true,
                    closed: true,
                    devcontainer: oav[j].1,
                },
            ),
        decreases m - k,
    {
        let title = match &orphan_answers[k].0 {
            Some(t) => crate::text::copy_string(t),
            None => "unknown".to_string(),
        };
        let row = CoreIssueRow {
            id: crate::text::copy_string(&ids[k]),
            title,
            active: true,
            closed: true,
            devcontainer: crate::text::copy_string(&orphan_answers[k].1),
        };
        let ghost before = core_row_views(rows@);
        rows.push(row);
        assert(core_row_views(rows@) =~= before.push(row@));
        k = k + 1;
    }
    rows
}

// ---------------------------------------------------------------------------
// Laws
// ---------------------------------------------------------------------------

proof fn lemma_session_key(r: (Seq<char>, Seq<char>))
    requires
        crate::domains::valid_repo_ref(r),
    ensures
        replace_char(crate::domains::ns_repo_text(r), '/', '.') == crate::domains::herdr_session_text(r),
{
    let t = crate::domains::ns_repo_text(r);
    assert forall|i: int| 0 <= i < r.0.len() implies r.0[i] != '/' by {
        assert(crate::domains::user_char(r.0[i]));
    }
    assert forall|i: int| 0 <= i < r.1.len() implies r.1[i] != '/' by {
        assert(crate::domains::repo_char(r.1[i]));
    }
    assert(replace_char(t, '/', '.') =~= crate::domains::herdr_session_text(r));
}

/// Session names tell repositories apart: namespaces hold no dot, so
/// turning the `/` of `<ns>/<repo>` into `.` loses nothing. Two well
/// formed repositories with the same session name for the same Workspace
/// id are the same repository.
pub proof fn law_core_session_names_one_to_one(
    a: (Seq<char>, Seq<char>),
    b: (Seq<char>, Seq<char>),
    id: Seq<char>,
    main: bool,
)
    requires
        crate::domains::valid_repo_ref(a),
        crate::domains::valid_repo_ref(b),
        core_session_text(crate::domains::ns_repo_text(a), id, main) == core_session_text(
            crate::domains::ns_repo_text(b),
            id,
            main,
        ),
    ensures
        a == b,
{
    lemma_session_key(a);
    lemma_session_key(b);
    let ka = crate::domains::herdr_session_text(a);
    let kb = crate::domains::herdr_session_text(b);
    if !main {
        let sa = ka + "-"@ + id;
        let sb = kb + "-"@ + id;
        assert(sa.len() == sb.len());
        assert(ka.len() == kb.len());
        assert(sa.subrange(0, ka.len() as int) =~= ka);
        assert(sb.subrange(0, kb.len() as int) =~= kb);
    }
    crate::domains::law_herdr_sessions_one_to_one(a, b);
}

} // verus!
