use wsm::wsm_core::prepare;
use wsm::domains::WorkspaceId;
use wsm::settings::SessionManager;
use wsm::wsm_core::{
    attach_command, ensure, ghq_path, is_valid_issue, is_valid_repo, issue_title, issue_title_and_state,
    list_ns_repos, list_ns_repos_in_ghq_order, open_issues, project_repos, remove_workspace_sessions, resolve_user,
    session_name, tmux_session_name, workspace_path, workspace_session_exists, core_issue_rows, core_orphan_ids,
    CoreIssueRow,
};

#[test]
fn core_names_and_paths() {
    let main = WorkspaceId::parse("main");
    let issue = WorkspaceId::parse("123");
    assert_eq!(ghq_path("/h", "owner/repo"), "/h/ghq/github.com/owner/repo");
    assert_eq!(workspace_path("/h", "owner/repo", &main), "/h/ghq/github.com/owner/repo");
    assert_eq!(workspace_path("/h", "owner/repo", &issue), "/h/worktrees/github.com/owner/repo/123");
    assert_eq!(session_name("owner/repo", &main), "owner.repo");
    assert_eq!(session_name("owner/repo", &issue), "owner.repo-123");
    assert_eq!(tmux_session_name("owner/my.repo", &issue), "owner_my_repo-123");
}

#[test]
fn core_validation() {
    assert!(is_valid_repo("owner/repo"));
    assert!(!is_valid_repo("owner/repo/x"));
    assert!(is_valid_issue("main"));
    assert!(is_valid_issue("42"));
    assert!(!is_valid_issue("CHH-111"));
    assert!(!is_valid_issue(""));
}

#[test]
fn core_store_listings() {
    assert_eq!(list_ns_repos(Some("github.com/b/x\ngitlab.com/c/y\ngithub.com/a/z\n")), vec!["a/z", "b/x"]);
    assert!(list_ns_repos(None).is_empty());
    assert_eq!(
        list_ns_repos_in_ghq_order(Some("/h/ghq/github.com/b/x\n/h/ghq/gitlab.com/c/y\n/h/ghq/github.com/a/z\n")),
        vec!["b/x", "a/z"]
    );
}

#[test]
fn core_tracker_answers() {
    assert_eq!(resolve_user(Some("me\n")).as_deref(), Some("me"));
    assert_eq!(resolve_user(Some("\n")), None);
    assert_eq!(
        open_issues(Some("42\tFix bug\n43\tAdd\tfeature\nnoise\n")),
        vec![("42".to_string(), "Fix bug".to_string()), ("43".to_string(), "Add\tfeature".to_string())]
    );
    assert_eq!(project_repos(Some("owner/a\n\nowner/b\n")), vec!["owner/a", "owner/b"]);
    assert_eq!(issue_title_and_state(Some("Title\tCLOSED\n\n")), Some(("Title".to_string(), "CLOSED".to_string())));
    assert_eq!(issue_title(Some("Title\n")).as_deref(), Some("Title"));
    assert_eq!(issue_title(Some("\n")), None);
}

#[test]
fn core_sessions() {
    assert!(workspace_session_exists("owner.repo", true, None));
    assert!(!workspace_session_exists("owner.repo", false, None));
    assert_eq!(ensure(SessionManager::Tmux, "owner.repo", false, false, false), Err("Failed to create session: owner.repo".to_string()));
    assert_eq!(ensure(SessionManager::Herdr, "owner.repo", false, false, false), Err("herdr not installed".to_string()));
    assert_eq!(remove_workspace_sessions("owner.repo", true).len(), 2);
    assert_eq!(attach_command(SessionManager::Tmux, "owner.repo", "/ws", "/h", None), "/opt/homebrew/bin/tmux attach-session -t 'owner.repo'");
    assert!(attach_command(SessionManager::Herdr, "owner.repo", "/ws", "/h", None).contains("/h/.local/bin/herdr"));
}

// --- the github.com-only core, scenario by scenario ---

use wsm::devcontainer::repo_configs;
use wsm::domains::branch_name;
use wsm::settings::default_devcontainer_config;
use wsm::usecases::config_rows;
use wsm::worktree::{add_args, parse_feature_worktrees};
use wsm::wsm_core::{flag_value, open_projects, project_user, required, validated, ArgKind};

fn args(list: &[&str]) -> Vec<String> {
    list.iter().map(|s| s.to_string()).collect()
}

fn projects(output: &str) -> Vec<(u64, String)> {
    open_projects(Some(output))
        .iter()
        .map(|p| (p.u64_at("number").unwrap(), p.str_at("title").unwrap().to_string()))
        .collect()
}

#[test]
fn list_projects_returns_open_projects_as_array() {
    assert_eq!(resolve_user(Some("me\n")).as_deref(), Some("me"));
    assert_eq!(
        projects("{\"number\":1,\"title\":\"Roadmap\"}\n{\"number\":3,\"title\":\"Backlog\"}\n"),
        vec![(1, "Roadmap".to_string()), (3, "Backlog".to_string())]
    );
}

#[test]
fn list_projects_returns_empty_array_when_no_projects() {
    assert!(open_projects(Some("")).is_empty());
    assert!(open_projects(None).is_empty());
}

#[test]
fn list_projects_fails_when_user_cannot_be_resolved() {
    let resolved = resolve_user(Some(""));
    assert_eq!(resolved, None);
    assert_eq!(project_user(&[], resolved), Err("failed to resolve GitHub user".to_string()));
}

#[test]
fn list_projects_with_explicit_user_skips_self_resolution() {
    assert_eq!(flag_value(&args(&["--user", "someone"]), "--user").as_deref(), Some("someone"));
    assert_eq!(project_user(&args(&["--user", "someone"]), None), Ok("someone".to_string()));
    assert_eq!(projects("{\"number\":7,\"title\":\"Ops\"}\n"), vec![(7, "Ops".to_string())]);
}

#[test]
fn list_issues_requires_repo_flag() {
    assert_eq!(required(&[], "--repo", ArgKind::Repo).err().as_deref(), Some("--repo required"));
}

#[test]
fn list_issues_rejects_repo_with_invalid_characters() {
    assert_eq!(
        required(&args(&["list-issues", "--repo", "owner/repo;rm -rf"]), "--repo", ArgKind::Repo),
        Err("Invalid repo: owner/repo;rm -rf".to_string())
    );
}

#[test]
fn core_arguments_follow_their_grammar() {
    assert_eq!(required(&args(&["--repo", "owner/repo"]), "--repo", ArgKind::Repo), Ok("owner/repo".to_string()));
    assert_eq!(required(&args(&["--issue", "main"]), "--issue", ArgKind::Issue), Ok("main".to_string()));
    assert_eq!(required(&args(&["--issue", "12a"]), "--issue", ArgKind::Issue), Err("Invalid issue: 12a".to_string()));
    assert_eq!(required(&args(&["--target", "x"]), "--target", ArgKind::Target), Err("Invalid target: x".to_string()));
    assert_eq!(validated(ArgKind::User, "-bad".to_string()), Err("Invalid user: -bad".to_string()));
    assert_eq!(project_user(&[], Some("me".to_string())), Ok("me".to_string()));
}

#[test]
fn list_repos_lists_all_ghq_repos_when_project_none() {
    assert_eq!(
        list_ns_repos(Some("github.com/owner/tool\ngithub.com/owner/repo\nexample.com/other/repo\n")),
        vec!["owner/repo", "owner/tool"]
    );
}

#[test]
fn main_list_repos_counts_active_workspaces() {
    let home = "/h";
    let porcelain = "worktree /h/ghq/github.com/owner/repo\nHEAD aaa\nbranch refs/heads/main\n\nworktree /h/worktrees/github.com/owner/repo/42\nHEAD bbb\nbranch refs/heads/feature/42\n\n";
    let active: Vec<String> = parse_feature_worktrees(porcelain)
        .into_iter()
        .filter(|(path, issue)| {
            let id = WorkspaceId::parse(issue);
            *path == workspace_path(home, "owner/repo", &id)
                && workspace_session_exists(&session_name("owner/repo", &id), true, None)
        })
        .map(|(_, issue)| issue)
        .collect();
    assert_eq!(active, vec!["42"]);
    assert_eq!(session_name("owner/repo", &WorkspaceId::parse("42")), "owner.repo-42");
    let main = workspace_session_exists(&session_name("owner/repo", &WorkspaceId::parse("main")), true, None);
    assert_eq!(active.len() + usize::from(main), 2);
}

#[test]
fn list_repos_filters_project_repos_by_local_clones() {
    let members = project_repos(Some("owner/repo\nowner/other\n"));
    let local = list_ns_repos(Some("github.com/owner/repo\ngithub.com/mine/tool\n"));
    let kept: Vec<&String> = members.iter().filter(|m| local.contains(m)).collect();
    assert_eq!(kept, vec!["owner/repo"]);
}

#[test]
fn main_list_workspaces_returns_empty_array_when_none_active() {
    assert_eq!(list_ns_repos_in_ghq_order(Some("/h/ghq/github.com/owner/repo\n")), vec!["owner/repo"]);
    assert!(!workspace_session_exists("owner.repo", false, None));
}

#[test]
fn main_list_workspaces_lists_main_and_worktree_entries() {
    let (title, state) = issue_title_and_state(Some("Fix bug\tCLOSED\n")).unwrap();
    assert_eq!((title.as_str(), state == "CLOSED"), ("Fix bug", true));
    assert!(workspace_session_exists("owner.repo-42", true, None));
}

fn core_row(id: &str, title: &str, active: bool, closed: bool, dc: &str) -> CoreIssueRow {
    CoreIssueRow { id: id.to_string(), title: title.to_string(), active, closed, devcontainer: dc.to_string() }
}

#[test]
fn main_list_issues_combines_main_and_open_issues() {
    let open = open_issues(Some("42\tFix bug\n43\tAdd feature\n"));
    assert_eq!(
        open,
        vec![("42".to_string(), "Fix bug".to_string()), ("43".to_string(), "Add feature".to_string())]
    );
    let main_active = workspace_session_exists(&session_name("owner/repo", &WorkspaceId::parse("main")), false, None);
    assert!(!main_active);
    let dcs = vec!["none".to_string(), "none".to_string()];
    assert!(core_orphan_ids(&[], &open).is_empty());
    assert_eq!(
        core_issue_rows(main_active, "none", &open, &dcs, &[], &[]),
        vec![
            core_row("main", "main", false, false, "none"),
            core_row("42", "Fix bug", false, false, "none"),
            core_row("43", "Add feature", false, false, "none"),
        ]
    );
}

#[test]
fn core_issue_list_marks_active_and_orphaned_worktrees() {
    let open = open_issues(Some("42\tFix bug\n"));
    let active = vec!["7".to_string(), "42".to_string(), "9".to_string()];
    assert_eq!(core_orphan_ids(&active, &open), vec!["7".to_string(), "9".to_string()]);
    let rows = core_issue_rows(
        true,
        "running",
        &open,
        &["stopped".to_string()],
        &active,
        &[(issue_title(Some("Old work\n")), "none".to_string()), (issue_title(None), "none".to_string())],
    );
    assert_eq!(
        rows,
        vec![
            core_row("main", "main", true, false, "running"),
            core_row("42", "Fix bug", true, false, "stopped"),
            core_row("7", "Old work", true, true, "none"),
            core_row("9", "unknown", true, true, "none"),
        ]
    );
}

#[test]
fn main_list_devcontainer_configs_lists_repo_configs() {
    let ws = workspace_path("/h", "owner/repo", &WorkspaceId::parse("main"));
    assert_eq!(ws, "/h/ghq/github.com/owner/repo");
    assert_eq!(
        config_rows(repo_configs(&ws, true, false, &["alt".to_string()]), None),
        vec![
            ("repo".to_string(), format!("{ws}/.devcontainer/devcontainer.json"), "repo".to_string()),
            ("repo-alt".to_string(), format!("{ws}/.devcontainer/alt/devcontainer.json"), "repo".to_string()),
        ]
    );
}

#[test]
fn main_list_devcontainer_configs_includes_configured_fallback() {
    let content = "default_devcontainer_config = \"/h/fallback/devcontainer.json\"\n";
    let fallback = default_devcontainer_config("/h", None, Some(content), true);
    assert_eq!(
        config_rows(Vec::new(), fallback),
        vec![("default".to_string(), "/h/fallback/devcontainer.json".to_string(), "default".to_string())]
    );
}

#[test]
fn main_open_main_creates_session_and_returns_attach_command() {
    let main = WorkspaceId::parse("main");
    let session = session_name("owner/repo", &main);
    assert_eq!(session, "owner.repo");
    assert_eq!(workspace_path("/h", "owner/repo", &main), "/h/ghq/github.com/owner/repo");
    assert_eq!(ensure(SessionManager::Tmux, &session, false, true, false), Ok(()));
    assert!(attach_command(SessionManager::Tmux, &session, "/h/ghq/github.com/owner/repo", "/h", Some("/f/tmux"))
        .ends_with("tmux attach-session -t 'owner.repo'"));
}

#[test]
fn main_open_issue_creates_worktree_branch_and_session() {
    let id = WorkspaceId::parse("42");
    let session = session_name("owner/repo", &id);
    assert_eq!(session, "owner.repo-42");
    let wt = workspace_path("/h", "owner/repo", &id);
    assert_eq!(wt, "/h/worktrees/github.com/owner/repo/42");
    assert_eq!(
        add_args(&ghq_path("/h", "owner/repo"), &branch_name("42"), &wt, false).join(" "),
        "-C /h/ghq/github.com/owner/repo worktree add --relative-paths -b feature/42 /h/worktrees/github.com/owner/repo/42"
    );
    assert_eq!(ensure(SessionManager::Tmux, &session, false, true, false), Ok(()));
}

#[test]
fn core_prepares_a_tmux_session_only_when_missing() {
    assert_eq!(prepare(SessionManager::Tmux, "owner.repo-12", "/w", true), None);
    assert_eq!(
        prepare(SessionManager::Tmux, "owner.repo-12", "/w", false).map(|a| a.join(" ")),
        Some("new-session -d -s owner.repo-12 -c /w".to_string())
    );
    assert_eq!(prepare(SessionManager::Herdr, "owner.repo-12", "/w", false), None);
    assert_eq!(ensure(SessionManager::Tmux, "owner.repo-12", false, false, false), Err("Failed to create session: owner.repo-12".to_string()));
}
