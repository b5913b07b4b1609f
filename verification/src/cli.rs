//! The command line of the JSON API: arguments read into commands over the
//! domain types. Reading checks: a repository is read by `RepoRef::parse`
//! and every id by its grammar, so the use cases only see well formed
//! values. Printing the answers is the caller's.
use vstd::prelude::*;
use crate::text::{chars_of, last_index, lemma_last_index, is_last, string_of};
use crate::domains::{
    main_word, parse_repo_ref, valid_cursor, valid_group, valid_issue, RepoRef, WorkspaceId,
};
use crate::settings::message;
use crate::tracker::string_views;

verus! {

/// The usage line.
pub open spec fn usage_text() -> Seq<char> {
    "Usage: wsm-server <list-repo-groups|list-group-issues|list-repos|list-issues|list-workspaces|list-devcontainer-configs|list-session-managers|list-trackers|open|remove>"@
}

/// The usage line, the answer to no or an unknown subcommand.
pub fn usage() -> (s: String)
    ensures
        s@ == usage_text(),
{
    "Usage: wsm-server <list-repo-groups|list-group-issues|list-repos|list-issues|list-workspaces|list-devcontainer-configs|list-session-managers|list-trackers|open|remove>".to_owned()
}

/// The value of a flag: what follows its last occurrence (a repeated flag
/// keeps the last value); an empty value counts as no value.
pub open spec fn flag_value_text(args: Seq<Seq<char>>, flag: Seq<char>) -> Option<Seq<char>> {
    match last_index(args, flag) {
        Some(i) => if i + 1 < args.len() && args[i + 1].len() > 0 {
            Some(args[i + 1])
        } else {
            None
        },
        None => None,
    }
}

/// The value of a flag (the last occurrence wins; empty is missing).
pub fn flag_value(args: &[String], flag: &str) -> (r: Option<String>)
    ensures
        match r {
            Some(v) => flag_value_text(string_views(args@), flag@) == Some(v@),
            None => flag_value_text(string_views(args@), flag@) is None,
        },
{
    let ghost av = string_views(args@);
    let n = args.len();
    let mut i: usize = n;
    while i > 0
        invariant
            i <= n,
            n == args@.len(),
            av == string_views(args@),
            forall|k: int| i <= k < n ==> av[k] != flag@,
        decreases i,
    {
        assert(av[i - 1] == args@[i - 1]@);
        if crate::text::str_eq(args[i - 1].as_str(), flag) {
            proof {
                lemma_last_index(av, flag@, i - 1);
            }
            if i < n {
                assert(av[i as int] == args@[i as int]@);
                if chars_of(args[i].as_str()).len() > 0 {
                    return Some(crate::text::copy_string(&args[i]));
                }
            }
            return None;
        }
        i = i - 1;
    }
    proof {
        crate::text::lemma_no_first_index(av, flag@);
    }
    None
}

/// The values of every occurrence of a flag, in order (for repeated flags
/// such as `--config`).
pub open spec fn flag_values_in(args: Seq<Seq<char>>, flag: Seq<char>, n: nat) -> Seq<Seq<char>>
    decreases n,
{
    if n == 0 || n > args.len() {
        Seq::empty()
    } else {
        let before = flag_values_in(args, flag, (n - 1) as nat);
        if args[n - 1] == flag && n < args.len() {
            before.push(args[n as int])
        } else {
            before
        }
    }
}

/// The values of every occurrence of a flag.
pub fn flag_values(args: &[String], flag: &str) -> (r: Vec<String>)
    ensures
        string_views(r@) == flag_values_in(string_views(args@), flag@, args@.len()),
{
    let ghost av = string_views(args@);
    let mut out: Vec<String> = Vec::new();
    let n = args.len();
    let mut i: usize = 0;
    assert(string_views(out@) =~= Seq::<Seq<char>>::empty());
    while i < n
        invariant
            i <= n,
            n == args@.len(),
            av == string_views(args@),
            string_views(out@) == flag_values_in(av, flag@, i as nat),
        decreases n - i,
    {
        assert(av[i as int] == args@[i as int]@);
        let ghost before = string_views(out@);
        if crate::text::str_eq(args[i].as_str(), flag) && i + 1 < n {
            assert(av[i + 1] == args@[i + 1]@);
            out.push(crate::text::copy_string(&args[i + 1]));
            assert(string_views(out@) =~= before.push(av[i + 1]));
        }
        i = i + 1;
    }
    out
}

/// `--repo` read as a repository: required, and of the `<ns>/<repo>` form.
pub open spec fn required_repo_text(args: Seq<Seq<char>>) -> Result<(Seq<char>, Seq<char>), Seq<char>> {
    match flag_value_text(args, "--repo"@) {
        None => Err("--repo required"@),
        Some(v) => match parse_repo_ref(v) {
            Some(r) => Ok(r),
            None => Err("Invalid repo: "@ + v),
        },
    }
}

/// Reads `--repo` as a repository (reading is the check).
pub fn required_repo(args: &[String]) -> (r: Result<RepoRef, String>)
    ensures
        match r {
            Ok(x) => required_repo_text(string_views(args@)) == Ok::<(Seq<char>, Seq<char>), Seq<char>>(x@),
            Err(e) => required_repo_text(string_views(args@)) == Err::<(Seq<char>, Seq<char>), Seq<char>>(e@),
        },
{
    let value = match flag_value(args, "--repo") {
        Some(v) => v,
        None => return Err("--repo required".to_owned()),
    };
    match RepoRef::parse(value.as_str()) {
        Some(r) => Ok(r),
        None => Err(message("Invalid repo: ", &chars_of(value.as_str()))),
    }
}

/// `--issue` read as a Workspace id: required, and `main` or an issue id.
pub open spec fn required_issue_text(args: Seq<Seq<char>>) -> Result<Seq<char>, Seq<char>> {
    match flag_value_text(args, "--issue"@) {
        None => Err("--issue required"@),
        Some(v) => if valid_issue(v) {
            Ok(v)
        } else {
            Err("Invalid issue: "@ + v)
        },
    }
}

/// Reads `--issue` as a Workspace id (reading is the check).
pub fn required_issue(args: &[String]) -> (r: Result<WorkspaceId, String>)
    ensures
        match r {
            Ok(x) => required_issue_text(string_views(args@)) == Ok::<Seq<char>, Seq<char>>(x.text()),
            Err(e) => required_issue_text(string_views(args@)) == Err::<Seq<char>, Seq<char>>(e@),
        },
{
    let value = match flag_value(args, "--issue") {
        Some(v) => v,
        None => return Err("--issue required".to_owned()),
    };
    if crate::domains::is_valid_issue(value.as_str()) {
        Ok(WorkspaceId::parse(value.as_str()))
    } else {
        Err(message("Invalid issue: ", &chars_of(value.as_str())))
    }
}

/// An optional flag checked by a grammar: absent is fine, a value of
/// another form is `Invalid <name>: <value>`.
pub open spec fn checked_text(value: Option<Seq<char>>, name: Seq<char>, ok: bool) -> Result<Option<Seq<char>>, Seq<char>> {
    match value {
        None => Ok(None),
        Some(v) => if ok {
            Ok(Some(v))
        } else {
            Err("Invalid "@ + name + ": "@ + v)
        },
    }
}

fn invalid(name: &str, value: &str) -> (e: String)
    ensures
        e@ == "Invalid "@ + name@ + ": "@ + value@,
{
    let mut m = chars_of("Invalid ");
    crate::text::append_chars(&mut m, &chars_of(name));
    crate::text::append_chars(&mut m, &chars_of(": "));
    crate::text::append_chars(&mut m, &chars_of(value));
    string_of(&m)
}

/// An issue id that may be a parent: the issue grammar, and not `main`.
pub open spec fn valid_parent(v: Seq<char>) -> bool {
    valid_issue(v) && v != main_word()
}

fn is_valid_parent(v: &str) -> (b: bool)
    ensures
        b == valid_parent(v@),
{
    let cs = chars_of(v);
    let is_main = cs.len() == 4 && cs[0] == 'm' && cs[1] == 'a' && cs[2] == 'i' && cs[3] == 'n';
    assert(is_main == (v@ == main_word())) by {
        if v@ == main_word() {
            assert(v@.len() == 4);
        }
        if is_main {
            assert(v@ =~= main_word());
        }
    }
    crate::domains::is_valid_issue(v) && !is_main
}

/// A command of the JSON API, its arguments read and checked.
pub enum Command {
    ListRepoGroups,
    ListGroupIssues { group_id: String, tracker: Option<String>, cursor: Option<String> },
    ListRepos { group: Option<String>, tracker: Option<String> },
    ListIssues { repo: RepoRef, parent: Option<String>, cursor: Option<String> },
    ListWorkspaces,
    ListDevcontainerConfigs { repo: RepoRef, id: WorkspaceId },
    ListSessionManagers,
    ListTrackers,
    Open { repo: RepoRef, id: WorkspaceId, configs: Vec<String> },
    Remove { repo: RepoRef, id: WorkspaceId },
}

/// What the library knows of a command.
pub enum CommandView {
    ListRepoGroups,
    ListGroupIssues { group_id: Seq<char>, tracker: Option<Seq<char>>, cursor: Option<Seq<char>> },
    ListRepos { group: Option<Seq<char>>, tracker: Option<Seq<char>> },
    ListIssues { repo: (Seq<char>, Seq<char>), parent: Option<Seq<char>>, cursor: Option<Seq<char>> },
    ListWorkspaces,
    ListDevcontainerConfigs { repo: (Seq<char>, Seq<char>), id: Seq<char> },
    ListSessionManagers,
    ListTrackers,
    Open { repo: (Seq<char>, Seq<char>), id: Seq<char>, configs: Seq<Seq<char>> },
    Remove { repo: (Seq<char>, Seq<char>), id: Seq<char> },
}

/// The text of an optional string.
pub open spec fn opt_view(s: Option<String>) -> Option<Seq<char>> {
    match s {
        Some(x) => Some(x@),
        None => None,
    }
}

impl View for Command {
    type V = CommandView;

    open spec fn view(&self) -> CommandView {
        match self {
            Command::ListRepoGroups => CommandView::ListRepoGroups,
            Command::ListGroupIssues { group_id, tracker, cursor } => CommandView::ListGroupIssues {
                group_id: group_id@,
                tracker: opt_view(*tracker),
                cursor: opt_view(*cursor),
            },
            Command::ListRepos { group, tracker } => CommandView::ListRepos {
                group: opt_view(*group),
                tracker: opt_view(*tracker),
            },
            Command::ListIssues { repo, parent, cursor } => CommandView::ListIssues {
                repo: repo@,
                parent: opt_view(*parent),
                cursor: opt_view(*cursor),
            },
            Command::ListWorkspaces => CommandView::ListWorkspaces,
            Command::ListDevcontainerConfigs { repo, id } => CommandView::ListDevcontainerConfigs {
                repo: repo@,
                id: id.text(),
            },
            Command::ListSessionManagers => CommandView::ListSessionManagers,
            Command::ListTrackers => CommandView::ListTrackers,
            Command::Open { repo, id, configs } => CommandView::Open {
                repo: repo@,
                id: id.text(),
                configs: string_views(configs@),
            },
            Command::Remove { repo, id } => CommandView::Remove { repo: repo@, id: id.text() },
        }
    }
}

/// `--group` of `list-repos`: absent, empty and `none` mean every
/// repository of the store; any other value must be a group id.
pub open spec fn repos_group_text(args: Seq<Seq<char>>) -> Result<Option<Seq<char>>, Seq<char>> {
    match flag_value_text(args, "--group"@) {
        None => Ok(None),
        Some(g) => if g == "none"@ {
            Ok(None)
        } else if valid_group(g) {
            Ok(Some(g))
        } else {
            Err("Invalid "@ + "group"@ + ": "@ + g)
        },
    }
}

/// The command that the arguments (after the program name) ask for.
pub open spec fn command_text(args: Seq<Seq<char>>) -> Result<CommandView, Seq<char>> {
    if args.len() == 0 {
        Err(usage_text())
    } else {
        let sub = args[0];
        let rest = args.drop_first();
        if sub == "list-repo-groups"@ {
            Ok(CommandView::ListRepoGroups)
        } else if sub == "list-group-issues"@ {
            match flag_value_text(rest, "--group"@) {
                None => Err("--group required"@),
                Some(g) => if !valid_group(g) {
                    Err("Invalid "@ + "group"@ + ": "@ + g)
                } else {
                    match checked_text(
                        flag_value_text(rest, "--cursor"@),
                        "cursor"@,
                        flag_value_text(rest, "--cursor"@) matches Some(c) && valid_cursor(c),
                    ) {
                        Err(e) => Err(e),
                        Ok(cursor) => Ok(
                            CommandView::ListGroupIssues {
                                group_id: g,
                                tracker: flag_value_text(rest, "--tracker"@),
                                cursor,
                            },
                        ),
                    }
                },
            }
        } else if sub == "list-repos"@ {
            match repos_group_text(rest) {
                Err(e) => Err(e),
                Ok(group) => Ok(CommandView::ListRepos { group, tracker: flag_value_text(rest, "--tracker"@) }),
            }
        } else if sub == "list-issues"@ {
            match required_repo_text(rest) {
                Err(e) => Err(e),
                Ok(repo) => match checked_text(
                    flag_value_text(rest, "--parent"@),
                    "parent"@,
                    flag_value_text(rest, "--parent"@) matches Some(p) && valid_parent(p),
                ) {
                    Err(e) => Err(e),
                    Ok(parent) => match checked_text(
                        flag_value_text(rest, "--cursor"@),
                        "cursor"@,
                        flag_value_text(rest, "--cursor"@) matches Some(c) && valid_cursor(c),
                    ) {
                        Err(e) => Err(e),
                        Ok(cursor) => Ok(CommandView::ListIssues { repo, parent, cursor }),
                    },
                },
            }
        } else if sub == "list-workspaces"@ {
            Ok(CommandView::ListWorkspaces)
        } else if sub == "list-session-managers"@ {
            Ok(CommandView::ListSessionManagers)
        } else if sub == "list-trackers"@ {
            Ok(CommandView::ListTrackers)
        } else if sub == "list-devcontainer-configs"@ || sub == "open"@ || sub == "remove"@ {
            match required_repo_text(rest) {
                Err(e) => Err(e),
                Ok(repo) => match required_issue_text(rest) {
                    Err(e) => Err(e),
                    Ok(id) => if sub == "open"@ {
                        Ok(
                            CommandView::Open {
                                repo,
                                id,
                                configs: flag_values_in(rest, "--config"@, rest.len()),
                            },
                        )
                    } else if sub == "remove"@ {
                        Ok(CommandView::Remove { repo, id })
                    } else {
                        Ok(CommandView::ListDevcontainerConfigs { repo, id })
                    },
                },
            }
        } else {
            Err(usage_text())
        }
    }
}

fn checked(value: Option<String>, name: &str, grammar: bool) -> (r: Result<Option<String>, String>)
    ensures
        match r {
            Ok(v) => checked_text(opt_view(value), name@, grammar) == Ok::<Option<Seq<char>>, Seq<char>>(opt_view(v)),
            Err(e) => checked_text(opt_view(value), name@, grammar) == Err::<Option<Seq<char>>, Seq<char>>(e@),
        },
{
    match value {
        None => Ok(None),
        Some(v) => if grammar {
            Ok(Some(v))
        } else {
            Err(invalid(name, v.as_str()))
        },
    }
}

/// Reads the arguments after the program name as a command; the error is
/// the message to report (the usage line for no or an unknown
/// subcommand).
pub fn parse_command(args: &[String]) -> (r: Result<Command, String>)
    ensures
        match r {
            Ok(c) => command_text(string_views(args@)) == Ok::<CommandView, Seq<char>>(c@),
            Err(e) => command_text(string_views(args@)) == Err::<CommandView, Seq<char>>(e@),
        },
{
    if args.len() == 0 {
        return Err(usage());
    }
    let ghost av = string_views(args@);
    let n = args.len();
    let rest = vstd::slice::slice_subrange(args, 1, n);
    assert(string_views(rest@) =~= av.drop_first());
    assert(av[0] == args@[0]@);
    let sub = args[0].as_str();
    if crate::text::str_eq(sub, "list-repo-groups") {
        Ok(Command::ListRepoGroups)
    } else if crate::text::str_eq(sub, "list-group-issues") {
        let g = match flag_value(rest, "--group") {
            None => return Err("--group required".to_owned()),
            Some(g) => g,
        };
        if !crate::domains::is_valid_group(g.as_str()) {
            return Err(invalid("group", g.as_str()));
        }
        let c = flag_value(rest, "--cursor");
        let ok = match &c {
            Some(x) => crate::domains::is_valid_cursor(x.as_str()),
            None => false,
        };
        let cursor = match checked(c, "cursor", ok) {
            Ok(x) => x,
            Err(e) => return Err(e),
        };
        Ok(Command::ListGroupIssues { group_id: g, tracker: flag_value(rest, "--tracker"), cursor })
    } else if crate::text::str_eq(sub, "list-repos") {
        let group = match flag_value(rest, "--group") {
            None => None,
            Some(g) => if crate::text::str_eq(g.as_str(), "none") {
                None
            } else if crate::domains::is_valid_group(g.as_str()) {
                Some(g)
            } else {
                return Err(invalid("group", g.as_str()));
            },
        };
        Ok(Command::ListRepos { group, tracker: flag_value(rest, "--tracker") })
    } else if crate::text::str_eq(sub, "list-issues") {
        let repo = match required_repo(rest) {
            Ok(r) => r,
            Err(e) => return Err(e),
        };
        let p = flag_value(rest, "--parent");
        let p_ok = match &p {
            Some(x) => is_valid_parent(x.as_str()),
            None => false,
        };
        let parent = match checked(p, "parent", p_ok) {
            Ok(x) => x,
            Err(e) => return Err(e),
        };
        let c = flag_value(rest, "--cursor");
        let c_ok = match &c {
            Some(x) => crate::domains::is_valid_cursor(x.as_str()),
            None => false,
        };
        let cursor = match checked(c, "cursor", c_ok) {
            Ok(x) => x,
            Err(e) => return Err(e),
        };
        Ok(Command::ListIssues { repo, parent, cursor })
    } else if crate::text::str_eq(sub, "list-workspaces") {
        Ok(Command::ListWorkspaces)
    } else if crate::text::str_eq(sub, "list-session-managers") {
        Ok(Command::ListSessionManagers)
    } else if crate::text::str_eq(sub, "list-trackers") {
        Ok(Command::ListTrackers)
    } else if crate::text::str_eq(sub, "list-devcontainer-configs") || crate::text::str_eq(sub, "open")
        || crate::text::str_eq(sub, "remove") {
        let repo = match required_repo(rest) {
            Ok(r) => r,
            Err(e) => return Err(e),
        };
        let id = match required_issue(rest) {
            Ok(i) => i,
            Err(e) => return Err(e),
        };
        if crate::text::str_eq(sub, "open") {
            Ok(Command::Open { repo, id, configs: flag_values(rest, "--config") })
        } else if crate::text::str_eq(sub, "remove") {
            Ok(Command::Remove { repo, id })
        } else {
            Ok(Command::ListDevcontainerConfigs { repo, id })
        }
    } else {
        Err(usage())
    }
}


// ---------------------------------------------------------------------------
// Laws
// ---------------------------------------------------------------------------

/// A repeated flag keeps its last value: whatever came before, appending
/// `flag value` (a non-empty value that is not the flag itself) makes
/// `value` the flag's value.
pub proof fn law_last_flag_wins(args: Seq<Seq<char>>, flag: Seq<char>, value: Seq<char>)
    requires
        value.len() > 0,
        value != flag,
    ensures
        flag_value_text(args + seq![flag, value], flag) == Some(value),
{
    let all = args + seq![flag, value];
    assert(all[args.len() as int] == flag);
    assert(all[args.len() as int + 1] == value);
    assert(is_last(all, flag, args.len() as int));
    lemma_last_index(all, flag, args.len() as int);
}

/// An empty value counts as no value: appending `flag ""` leaves the flag
/// without a value.
pub proof fn law_empty_flag_is_missing(args: Seq<Seq<char>>, flag: Seq<char>)
    requires
        flag.len() > 0,
    ensures
        flag_value_text(args + seq![flag, Seq::<char>::empty()], flag) is None,
{
    let all = args + seq![flag, Seq::<char>::empty()];
    assert(all[args.len() as int] == flag);
    assert(all[args.len() as int + 1] != flag);
    assert(is_last(all, flag, args.len() as int));
    lemma_last_index(all, flag, args.len() as int);
}

} // verus!
