//! The commands of `wsm-server`, scenario by scenario, through the library:
//! each test hands the library what the tools of the scenario print and
//! checks what the command answers.

use wsm::cli::{parse_command, Command};
use wsm::devcontainer::{
    config_name, container_id, container_id_args, down, exec_command, repo_configs, state, state_for_config, up,
    up_args, Outcome,
};
use wsm::domains::{
    branch_name, tmux_session_name, workspace_path, Paths, RepoEntry, RepoRef, WorkspaceId,
};
use wsm::repostore::{entries, lookup};
use wsm::session::{
    action_args, add_window, attach_command, ensure, herdr_blocks_main_removal, herdr_server_args,
    herdr_session_running, herdr_socket_path, herdr_workspaces, issue_workspace_action, main_workspace_action,
    tmux_new_session_args, workspace_session_exists, HerdrStart,
};
use wsm::settings::{
    default_devcontainer_config, devcontainer_shell, session_manager, session_managers, trackers, worktree_root,
    SessionManager, Trackers,
};
use wsm::tracker::{
    group_issues, group_issues_args, issue, open_issues, IssueItem, IssueQuery, IssuesStep,
};
use wsm::usecases::{
    active_count, config_rows, first_page_extras, group_issue_row, issue_rows, list_repo_groups,
    list_session_managers, open_message, workspace_rows, placed_worktrees, remove_message, sort_entries,
    tracker_group_rows, tracker_row, up_failure, GroupRow, IssueRow,
};
use wsm::worktree::{add, add_args, branch_exists_args};
use wsm::workflow::{open_accepts, open_start, open_step, remove_plan, Call, OpenAction, OpenEvent, Program};

const HOME: &str = "/h";
const FAKES: &str = "/f";

fn managers_config(order: &[&str]) -> String {
    order.iter().map(|name| format!("{name}_path = \"{FAKES}/{name}\"\n")).collect()
}

fn tracker_config() -> String {
    format!("[[tracker]]\nname = \"fake\"\npath = \"{FAKES}/tracker\"\n")
}

fn default_config() -> String {
    format!("{}{}", managers_config(&["tmux", "herdr"]), tracker_config())
}

fn two_trackers_config(other_extra: &str) -> String {
    format!(
        "{}{}[[tracker]]\nname = \"other\"\npath = \"{FAKES}/tracker2\"\n{other_extra}",
        managers_config(&["tmux", "herdr"]),
        tracker_config()
    )
}

fn args(list: &[&str]) -> Vec<String> {
    list.iter().map(|s| s.to_string()).collect()
}

fn repo(s: &str) -> RepoRef {
    RepoRef::parse(s).unwrap()
}

fn id(s: &str) -> WorkspaceId {
    WorkspaceId::parse(s)
}

fn store(ghq_list: &str, content: &str) -> Result<Vec<RepoEntry>, String> {
    entries(HOME, None, Some(ghq_list), Some(content))
}

fn paths(content: &str) -> Paths {
    Paths { home: HOME.to_string(), worktree_root: worktree_root(HOME, None, Some(content)) }
}

fn names(list: &[RepoEntry]) -> Vec<String> {
    list.iter().map(|e| e.repo.ns_repo()).collect()
}

fn groups(rows: &[GroupRow]) -> Vec<(String, String, String)> {
    rows.iter()
        .map(|r| {
            (
                r.group.str_at("id").unwrap_or_default().to_string(),
                r.group.str_at("title").unwrap_or_default().to_string(),
                r.tracker.clone(),
            )
        })
        .collect()
}

type Row = (String, String, String, bool, bool, String, bool);

fn rows(list: &[IssueRow]) -> Vec<Row> {
    list.iter()
        .map(|r| (r.id.clone(), r.title.clone(), r.repo.clone(), r.active, r.closed, r.devcontainer.clone(), r.has_children))
        .collect()
}

fn row(id: &str, title: &str, repo: &str, active: bool, closed: bool, dc: &str, has_children: bool) -> Row {
    (id.to_string(), title.to_string(), repo.to_string(), active, closed, dc.to_string(), has_children)
}

/// A page of issues after the fallbacks: what each query printed, in turn.
fn page(outputs: &[Option<&str>], parent: bool, cursor: bool) -> (Vec<IssueItem>, Option<String>) {
    let mut query = IssueQuery::V2;
    for out in outputs {
        match open_issues(query, *out, parent, cursor) {
            IssuesStep::Ask(next) => query = next,
            IssuesStep::Done(items, next_cursor) => return (items, next_cursor),
        }
    }
    panic!("the fallbacks asked for more answers than the scenario has")
}

/// The rows of a repository's own issues that no session or container
/// marks, with `main` in front on the first page.
fn plain_rows(asked: &RepoRef, items: &[IssueItem], first_page: bool) -> Vec<IssueRow> {
    let facts: Vec<(bool, String)> = items.iter().map(|_| (false, "none".to_string())).collect();
    let first = if first_page { Some((false, "none".to_string(), Vec::new())) } else { None };
    issue_rows(asked, items, &[], &facts, first)
}

fn main_only(ns_repo: &str) -> Vec<Row> {
    vec![row("main", "main", ns_repo, false, false, "none", false)]
}

// --- list-repo-groups ---

#[test]
fn list_repo_groups_returns_open_groups_as_array() {
    let t = trackers(HOME, Some(&default_config())).unwrap();
    let asked = list_repo_groups(&t).unwrap();
    assert_eq!(asked.len(), 1);
    let out = tracker_group_rows(asked[0], Some(r#"[{"id":"1","title":"Roadmap"},{"id":"3","title":"Backlog"}]"#));
    assert_eq!(
        groups(&out),
        vec![
            ("1".to_string(), "Roadmap".to_string(), "fake".to_string()),
            ("3".to_string(), "Backlog".to_string(), "fake".to_string()),
        ]
    );
}

#[test]
fn list_repo_groups_returns_empty_array_when_plugin_fails() {
    let t = trackers(HOME, Some(&default_config())).unwrap();
    let asked = list_repo_groups(&t).unwrap();
    assert!(tracker_group_rows(asked[0], None).is_empty());
}

#[test]
fn list_repo_groups_fails_when_no_tracker_configured() {
    let t = trackers(HOME, Some(&managers_config(&["tmux", "herdr"]))).unwrap();
    assert_eq!(
        list_repo_groups(&t).err().as_deref(),
        Some("no tracker configured (add [[tracker]] to config.toml)")
    );
}

#[test]
fn list_repo_groups_drops_items_with_invalid_ids() {
    let t = trackers(HOME, Some(&default_config())).unwrap();
    let out = tracker_group_rows(
        t.named("fake").unwrap(),
        Some(r#"[{"id":"1","title":"Ok"},{"id":"../evil","title":"Bad"},{"id":7,"title":"NotString"}]"#),
    );
    assert_eq!(groups(&out), vec![("1".to_string(), "Ok".to_string(), "fake".to_string())]);
}

#[test]
fn list_repo_groups_preserves_backslashes_in_titles() {
    let t = trackers(HOME, Some(&default_config())).unwrap();
    let out = tracker_group_rows(t.named("fake").unwrap(), Some(r#"[{"id":"1","title":"Group \\ A"}]"#));
    assert_eq!(groups(&out), vec![("1".to_string(), "Group \\ A".to_string(), "fake".to_string())]);
}

// --- list-repos and the repository store ---

#[test]
fn list_repos_lists_all_ghq_repos_when_group_none() {
    match parse_command(&args(&["list-repos", "--group", "none"])).unwrap() {
        Command::ListRepos { group, .. } => assert_eq!(group, None),
        _ => panic!("list-repos expected"),
    }
    let all = store(
        "github.com/owner/tool\ngithub.com/owner/repo\ngitlab.example.com/other/repo\ngitlab.com/group/sub/repo\n",
        &default_config(),
    )
    .unwrap();
    assert_eq!(names(&sort_entries(all)), vec!["other/repo", "owner/repo", "owner/tool"]);
}

#[test]
fn list_repos_counts_active_workspaces() {
    let cfg = default_config();
    let all = store("github.com/owner/repo\n", &cfg).unwrap();
    let entry = &all[0];
    let porcelain = "worktree /h/ghq/github.com/owner/repo\nHEAD aaa\nbranch refs/heads/main\n\nworktree /h/worktrees/github.com/owner/repo/42\nHEAD bbb\nbranch refs/heads/feature/42\n\n";
    let placed = placed_worktrees(&paths(&cfg), entry, porcelain);
    assert_eq!(placed, vec![("42".to_string(), "/h/worktrees/github.com/owner/repo/42".to_string())]);
    let r = repo("owner/repo");
    assert_eq!(tmux_session_name(&r, &id("main")), "owner_repo");
    assert_eq!(tmux_session_name(&r, &id("42")), "owner_repo_42");
    let main_active = workspace_session_exists(&r, &id("main"), true, None, None);
    let issue_active = workspace_session_exists(&r, &id("42"), true, None, None);
    assert!(main_active && issue_active);
    assert_eq!(active_count(placed.len(), main_active), 2);
}

#[test]
fn ghq_repo_on_another_host_uses_host_scoped_paths() {
    let cfg = default_config();
    let all = store("gitlab.example.com/team/svc\n", &cfg).unwrap();
    let r = repo("team/svc");
    let entry = lookup(&all, &r).unwrap();
    let wt = workspace_path(&paths(&cfg), &entry, &id("7"));
    assert_eq!(wt, "/h/worktrees/gitlab.example.com/team/svc/7");
    assert_eq!(
        add_args(&entry.clone_path, &branch_name("7"), &wt, false).join(" "),
        "-C /h/ghq/gitlab.example.com/team/svc worktree add --relative-paths -b feature/7 /h/worktrees/gitlab.example.com/team/svc/7"
    );
    let session = ensure(SessionManager::Tmux, &r, &id("7"), false, true, false, &HerdrStart::Stalled, None, true, true);
    assert_eq!(session.as_deref(), Ok("team_svc_7"));
}

fn custom_repo_config() -> String {
    format!(
        "{}[[repo]]\npath = \"~/work/aaa\"\nhost = \"gitlab.example.com\"\nns = \"myteam\"\n",
        managers_config(&["tmux", "herdr"])
    )
}

#[test]
fn custom_repo_from_config_opens_with_common_worktree_logic() {
    let cfg = custom_repo_config();
    let all = store("", &cfg).unwrap();
    let r = repo("myteam/aaa");
    let entry = lookup(&all, &r).unwrap();
    assert_eq!(entry.clone_path, "/h/work/aaa");
    let wt = workspace_path(&paths(&cfg), &entry, &id("CHH-111"));
    assert_eq!(wt, "/h/worktrees/gitlab.example.com/myteam/aaa/CHH-111");
    assert_eq!(
        add_args(&entry.clone_path, &branch_name("CHH-111"), &wt, false).join(" "),
        "-C /h/work/aaa worktree add --relative-paths -b feature/CHH-111 /h/worktrees/gitlab.example.com/myteam/aaa/CHH-111"
    );
    let session = ensure(SessionManager::Tmux, &r, &id("CHH-111"), false, true, false, &HerdrStart::Stalled, None, true, true);
    assert_eq!(session.as_deref(), Ok("myteam_aaa_CHH-111"));
}

#[test]
fn custom_repo_appears_in_list_repos() {
    let all = store("github.com/owner/repo\n", &custom_repo_config()).unwrap();
    assert_eq!(names(&sort_entries(all)), vec!["myteam/aaa", "owner/repo"]);
}

#[test]
fn open_unknown_repo_fails_with_error_json() {
    let all = store("", &default_config()).unwrap();
    assert_eq!(lookup(&all, &repo("owner/nope")).err().as_deref(), Some("repository not found: owner/nope"));
}

#[test]
fn invalid_repo_entry_in_config_fails_loudly() {
    let cfg = format!(
        "{}[[repo]]\npath = \"~/work/aaa\"\nhost = \"gitlab.example.com\"\n",
        managers_config(&["tmux", "herdr"])
    );
    assert_eq!(store("github.com/owner/repo\n", &cfg).err().as_deref(), Some("[[repo]] requires ns in config.toml"));
}

#[test]
fn list_repos_returns_empty_array_when_ghq_fails() {
    let all = entries(HOME, None, None, Some(&default_config())).unwrap();
    assert!(sort_entries(all).is_empty());
}

// --- tracker instances ---

#[test]
fn tracker_extension_keys_are_passed_as_env() {
    let cfg = format!("{}{}owner = \"acme-corp\"\n", managers_config(&["tmux", "herdr"]), tracker_config());
    let t = trackers(HOME, Some(&cfg)).unwrap();
    let fake = t.named("fake").unwrap();
    assert_eq!(
        fake.env(),
        &[
            ("WSM_TRACKER_NAME".to_string(), "fake".to_string()),
            ("WSM_TRACKER_OWNER".to_string(), "acme-corp".to_string()),
        ]
    );
    let out = tracker_group_rows(fake, Some(r#"[{"id":"1","title":"Org Board"}]"#));
    assert_eq!(groups(&out), vec![("1".to_string(), "Org Board".to_string(), "fake".to_string())]);
}

#[test]
fn ns_mapping_routes_repos_to_their_tracker() {
    let cfg = two_trackers_config("ns = \"owner\"\n");
    let t = trackers(HOME, Some(&cfg)).unwrap();
    let all = store("github.com/owner/repo\n", &cfg).unwrap();
    let r = repo("owner/repo");
    let entry = lookup(&all, &r).unwrap();
    let routed = t.for_repo(&entry).unwrap().unwrap();
    assert_eq!((routed.name(), routed.path()), ("other", "/f/tracker2"));
    let (items, _) = page(&[Some(r#"{"issues":[{"id":"42","title":"Org task"}],"next_cursor":null}"#)], false, false);
    let out = plain_rows(&r, &items, true);
    assert_eq!(out[1].title, "Org task");
}

#[test]
fn duplicate_ns_mapping_is_a_config_error() {
    let cfg = format!(
        "{}{}ns = \"acme\"\n[[tracker]]\nname = \"other\"\npath = \"{FAKES}/tracker2\"\nns = \"acme\"\n",
        managers_config(&["tmux", "herdr"]),
        tracker_config()
    );
    assert_eq!(trackers(HOME, Some(&cfg)).err().as_deref(), Some("ns mapped to multiple trackers: acme (fake, other)"));
}

#[test]
fn repo_groups_survive_one_broken_tracker() {
    let t = trackers(HOME, Some(&two_trackers_config(""))).unwrap();
    let asked = list_repo_groups(&t).unwrap();
    let names: Vec<&str> = asked.iter().map(|x| x.name()).collect();
    assert_eq!(names, vec!["fake", "other"]);
    let mut out = tracker_group_rows(asked[0], Some(r#"[{"id":"1","title":"Personal"}]"#));
    out.extend(tracker_group_rows(asked[1], None));
    assert_eq!(groups(&out), vec![("1".to_string(), "Personal".to_string(), "fake".to_string())]);
}

#[test]
fn group_issues_route_to_the_named_tracker() {
    let t = trackers(HOME, Some(&two_trackers_config(""))).unwrap();
    let named = t.named_or_default(Some("other")).unwrap();
    assert_eq!(named.path(), "/f/tracker2");
    assert_eq!(group_issues_args("7", None), vec!["list-group-issues-v0", "--group", "7"]);
    let (items, next) =
        group_issues(Some(r#"{"issues":[{"id":"9","title":"Org task","repo":"acme/api"}],"next_cursor":null}"#));
    assert!(next.is_none());
    let out = group_issue_row(&items[0], false, "none").unwrap();
    assert_eq!(out.repo, "acme/api");
}

#[test]
fn list_issues_degrades_to_main_when_no_tracker_configured() {
    let cfg = managers_config(&["tmux", "herdr"]);
    let t = trackers(HOME, Some(&cfg)).unwrap();
    let all = store("github.com/owner/repo\n", &cfg).unwrap();
    let r = repo("owner/repo");
    assert!(t.for_repo(&lookup(&all, &r).unwrap()).unwrap().is_none());
    assert_eq!(rows(&plain_rows(&r, &[], true)), main_only("owner/repo"));
}

#[test]
fn repo_with_unknown_tracker_name_is_a_config_error() {
    let cfg = format!(
        "{}{}[[repo]]\npath = \"~/work/aaa\"\nhost = \"gitlab.example.com\"\nns = \"myteam\"\ntracker = \"jira\"\n",
        managers_config(&["tmux", "herdr"]),
        tracker_config()
    );
    let t: Trackers = trackers(HOME, Some(&cfg)).unwrap();
    let all = store("", &cfg).unwrap();
    let entry = lookup(&all, &repo("myteam/aaa")).unwrap();
    assert_eq!(t.for_repo(&entry).err().as_deref(), Some("tracker not configured: jira"));
}

// --- list-trackers ---

#[test]
fn list_trackers_reports_unready_with_diagnosis() {
    let t = trackers(HOME, Some(&default_config())).unwrap();
    let out = tracker_row(
        t.named("fake").unwrap(),
        t.default_name(),
        true,
        Some(r#"{"ready":false,"diagnosis":"gh: missing scope read:project"}"#),
    );
    assert!(out.installed);
    assert_eq!(out.ready, Some(false));
    assert_eq!(out.diagnosis.as_deref(), Some("gh: missing scope read:project"));
}

#[test]
fn list_trackers_reports_missing_binary_and_info_unsupported() {
    let cfg = format!(
        "{}{}[[tracker]]\nname = \"jira\"\npath = \"~/no/such/plugin\"\n",
        managers_config(&["tmux", "herdr"]),
        tracker_config()
    );
    let t = trackers(HOME, Some(&cfg)).unwrap();
    let all = t.all();
    assert_eq!(all.len(), 2);
    assert_eq!(all[1].path(), "/h/no/such/plugin");
    let fake = tracker_row(all[0], t.default_name(), true, None);
    let jira = tracker_row(all[1], t.default_name(), false, None);
    assert_eq!((fake.name.as_str(), fake.installed, fake.ready), ("fake", true, None));
    assert_eq!((jira.name.as_str(), jira.installed, jira.ready), ("jira", false, None));
}

#[test]
fn list_trackers_returns_empty_array_when_none_configured() {
    let t = trackers(HOME, Some(&managers_config(&["tmux", "herdr"]))).unwrap();
    assert!(t.all().is_empty());
}

// --- list-issues and list-group-issues ---

#[test]
fn invalid_issue_ids_from_plugin_are_dropped() {
    let r = repo("owner/repo");
    let (items, next) = page(
        &[None, Some(r#"[{"id":"42","title":"Ok"},{"id":"../evil","title":"Bad"},{"id":"main","title":"Sentinel"}]"#)],
        false,
        false,
    );
    assert!(next.is_none());
    let mut expected = main_only("owner/repo");
    expected.push(row("42", "Ok", "owner/repo", false, false, "none", false));
    assert_eq!(rows(&plain_rows(&r, &items, true)), expected);
}

#[test]
fn list_issues_combines_main_and_open_issues() {
    let r = repo("owner/repo");
    let (items, _) = page(
        &[None, Some(r#"[{"id":"42","title":"Fix bug","has_children":true},{"id":"43","title":"Add feature"}]"#)],
        false,
        false,
    );
    let mut expected = main_only("owner/repo");
    expected.push(row("42", "Fix bug", "owner/repo", false, false, "none", true));
    expected.push(row("43", "Add feature", "owner/repo", false, false, "none", false));
    assert_eq!(rows(&plain_rows(&r, &items, true)), expected);
}

#[test]
fn list_group_issues_degrades_to_empty_for_legacy_plugins() {
    let (items, next) = group_issues(None);
    assert!(items.is_empty());
    assert!(next.is_none());
}

#[test]
fn list_issues_with_parent_lists_children_only() {
    let r = repo("owner/repo");
    let (items, _) = page(
        &[None, Some(r#"[{"id":"421","title":"Child A","has_children":true},{"id":"422","title":"Child B"}]"#)],
        true,
        false,
    );
    let first_page = first_page_extras(true, false);
    assert!(!first_page);
    assert_eq!(
        rows(&plain_rows(&r, &items, first_page)),
        vec![
            row("421", "Child A", "owner/repo", false, false, "none", true),
            row("422", "Child B", "owner/repo", false, false, "none", false),
        ]
    );
}

#[test]
fn list_issues_preserves_backslash_sequences_in_titles() {
    let r = repo("owner/repo");
    let (items, _) = page(&[None, Some(r#"[{"id":"42","title":"Keep \\t literal"}]"#)], false, false);
    assert_eq!(
        rows(&plain_rows(&r, &items, true))[1],
        row("42", "Keep \\t literal", "owner/repo", false, false, "none", false)
    );
}

#[test]
fn list_issues_degrades_to_main_when_tracker_fails() {
    let r = repo("owner/repo");
    let (items, next) = page(&[None, None, None], false, false);
    assert!(items.is_empty() && next.is_none());
    assert_eq!(rows(&plain_rows(&r, &items, true)), main_only("owner/repo"));
}

// --- list-workspaces ---

#[test]
fn list_workspaces_returns_empty_array_when_none_active() {
    let cfg = default_config();
    let all = store("github.com/owner/repo\n", &cfg).unwrap();
    let r = repo("owner/repo");
    let main_active = workspace_session_exists(&r, &id("main"), false, None, None);
    assert!(placed_worktrees(&paths(&cfg), &all[0], "").is_empty());
    assert!(workspace_rows(&r, main_active, "none", &[]).is_empty());
}

#[test]
fn list_workspaces_lists_main_and_worktree_entries() {
    let cfg = default_config();
    let all = store("github.com/owner/repo\n", &cfg).unwrap();
    let r = repo("owner/repo");
    let porcelain = "worktree /h/worktrees/github.com/owner/repo/42\nHEAD bbb\nbranch refs/heads/feature/42\n\n";
    let placed = placed_worktrees(&paths(&cfg), &all[0], porcelain);
    assert_eq!(placed.len(), 1);
    let answer = issue(Some(r#"{"title":"Fix bug","state":"closed"}"#));
    let worktrees = vec![(placed[0].0.clone(), true, answer, state(Some("")).to_string())];
    let view: Vec<(String, String, String, bool, bool, String)> = workspace_rows(&r, true, state(Some("")), &worktrees)
        .iter()
        .map(|w| (w.ns_repo.clone(), w.id.clone(), w.title.clone(), w.active, w.closed, w.devcontainer.clone()))
        .collect();
    assert_eq!(
        view,
        vec![
            ("owner/repo".to_string(), "main".to_string(), "main".to_string(), true, false, "none".to_string()),
            ("owner/repo".to_string(), "42".to_string(), "Fix bug".to_string(), true, true, "none".to_string()),
        ]
    );
}

// --- paths and devcontainer configurations ---

#[test]
fn respects_configured_worktree_root() {
    let cfg = format!("{}worktree_root = \"~/wt\"\n", managers_config(&["tmux", "herdr"]));
    let all = store("github.com/owner/repo\n", &cfg).unwrap();
    let entry = lookup(&all, &repo("owner/repo")).unwrap();
    let wt = workspace_path(&paths(&cfg), &entry, &id("42"));
    assert_eq!(wt, "/h/wt/github.com/owner/repo/42");
    assert!(add_args(&entry.clone_path, &branch_name("42"), &wt, false).join(" ").contains("-b feature/42 /h/wt/github.com/owner/repo/42"));
}

#[test]
fn list_devcontainer_configs_lists_repo_configs() {
    let cfg = default_config();
    let all = store("github.com/owner/repo\n", &cfg).unwrap();
    let entry = lookup(&all, &repo("owner/repo")).unwrap();
    let ws = workspace_path(&paths(&cfg), &entry, &id("main"));
    assert_eq!(ws, "/h/ghq/github.com/owner/repo");
    let found = repo_configs(&ws, true, false, &["alt".to_string()]);
    let fallback = default_devcontainer_config(HOME, None, Some(&cfg), true);
    assert!(fallback.is_none());
    assert_eq!(
        config_rows(found, fallback),
        vec![
            ("repo".to_string(), format!("{ws}/.devcontainer/devcontainer.json"), "repo".to_string()),
            ("repo-alt".to_string(), format!("{ws}/.devcontainer/alt/devcontainer.json"), "repo".to_string()),
        ]
    );
}

// --- open ---

#[test]
fn open_main_creates_session_and_returns_attach_command() {
    let cfg = default_config();
    let all = store("github.com/owner/repo\n", &cfg).unwrap();
    let r = repo("owner/repo");
    let entry = lookup(&all, &r).unwrap();
    let ws = workspace_path(&paths(&cfg), &entry, &id("main"));
    assert_eq!(ws, "/h/ghq/github.com/owner/repo");
    let managers = session_managers(HOME, Some(&cfg));
    let manager = session_manager(None, Some(&cfg), &managers).unwrap();
    assert_eq!(manager, SessionManager::Tmux);
    let name = tmux_session_name(&r, &id("main"));
    assert_eq!(tmux_new_session_args(&name, &ws).join(" "), "new-session -d -s owner_repo -c /h/ghq/github.com/owner/repo");
    let session = ensure(manager, &r, &id("main"), false, true, false, &HerdrStart::Stalled, None, true, true).unwrap();
    assert_eq!(session, "owner_repo");
    let bin = managers.path(manager).unwrap();
    assert!(attach_command(manager, &session, &ws, bin).ends_with("tmux attach-session -t 'owner_repo'"));
    assert_eq!(open_message(&r, &id("main"), manager, &[]), "Opened owner/repo (main) [tmux]");
}

fn open_issue_scenario(issue: &str) {
    let cfg = default_config();
    let all = store("github.com/owner/repo\n", &cfg).unwrap();
    let r = repo("owner/repo");
    let entry = lookup(&all, &r).unwrap();
    let wt = workspace_path(&paths(&cfg), &entry, &id(issue));
    assert_eq!(wt, format!("/h/worktrees/github.com/owner/repo/{issue}"));
    let branch = branch_name(issue);
    assert_eq!(
        branch_exists_args(&entry.clone_path, &branch).join(" "),
        format!("-C /h/ghq/github.com/owner/repo show-ref --verify --quiet refs/heads/feature/{issue}")
    );
    assert_eq!(
        add_args(&entry.clone_path, &branch, &wt, false).join(" "),
        format!("-C /h/ghq/github.com/owner/repo worktree add --relative-paths -b feature/{issue} {wt}")
    );
    assert_eq!(add(false, true), Ok(()));
    let session = ensure(SessionManager::Tmux, &r, &id(issue), false, true, false, &HerdrStart::Stalled, None, true, true);
    assert_eq!(session, Ok(format!("owner_repo_{issue}")));
    assert_eq!(open_message(&r, &id(issue), SessionManager::Tmux, &[]), format!("Opened owner/repo {issue} [tmux]"));
}

#[test]
fn open_issue_creates_worktree_branch_and_session() {
    open_issue_scenario("42");
}

#[test]
fn open_issue_accepts_tracker_style_ids() {
    match parse_command(&args(&["open", "--repo", "owner/repo", "--issue", "CHH-111"])).unwrap() {
        Command::Open { id, .. } => assert_eq!(id.as_str(), "CHH-111"),
        _ => panic!("open expected"),
    }
    open_issue_scenario("CHH-111");
}

// --- the steps of open ---

fn action(a: &OpenAction) -> String {
    match a {
        OpenAction::AddWorktree(b) => format!("worktree {b}"),
        OpenAction::EnsureSession => "session".to_string(),
        OpenAction::UpConfig(i) => format!("config {i}"),
        OpenAction::Finish(m) => format!("finish {m}"),
        OpenAction::Fail(e) => format!("fail {e}"),
    }
}

/// Drives an open with the answers of the scenario, one per action.
fn drive(issue: &str, configs: &[&str], answers: Vec<OpenEvent>) -> Vec<String> {
    let ws = if issue == "main" { WS.to_string() } else { format!("/h/worktrees/github.com/owner/repo/{issue}") };
    let mut state = open_start(repo("owner/repo"), id(issue), SessionManager::Tmux, ws, configs.iter().map(|c| c.to_string()).collect());
    let mut out = Vec::new();
    for answer in answers {
        assert!(open_accepts(&state, &answer));
        let (next, a) = open_step(state, answer);
        state = next;
        out.push(action(&a));
    }
    out
}

#[test]
fn open_runs_worktree_then_session_then_configs() {
    let cfg = repo_config();
    let alt = format!("{WS}/.devcontainer/alt/devcontainer.json");
    assert_eq!(
        drive("main", &[&cfg, &alt], vec![
            OpenEvent::Begin(true),
            OpenEvent::SessionReady(Ok(())),
            OpenEvent::ConfigUp(Ok(Outcome::Created)),
            OpenEvent::ConfigUp(Ok(Outcome::Created)),
        ]),
        vec!["session", "config 0", "config 1", "finish Opened owner/repo (main) [tmux] + devcontainer(s) [created: repo, created: repo-alt]"]
    );
    assert_eq!(
        drive("42", &[], vec![OpenEvent::Begin(false), OpenEvent::WorktreeAdded(Ok(())), OpenEvent::SessionReady(Ok(()))]),
        vec!["worktree feature/42", "session", "finish Opened owner/repo 42 [tmux]"]
    );
    assert_eq!(
        drive("42", &[], vec![OpenEvent::Begin(true), OpenEvent::SessionReady(Ok(()))]),
        vec!["session", "finish Opened owner/repo 42 [tmux]"]
    );
}

#[test]
fn open_stops_at_the_first_failure() {
    assert_eq!(
        drive("42", &[], vec![OpenEvent::Begin(false), OpenEvent::WorktreeAdded(add(false, false))]),
        vec!["worktree feature/42", "fail Failed to create worktree"]
    );
    let cfg = repo_config();
    let failed = up(true, true, &cfg, None, false);
    assert_eq!(
        drive("main", &[&cfg, &cfg], vec![OpenEvent::Begin(true), OpenEvent::SessionReady(Ok(())), OpenEvent::ConfigUp(failed)]),
        vec!["session".to_string(), "config 0".to_string(), format!("fail devcontainer up failed for {cfg}")]
    );
    let mut state = open_start(repo("owner/repo"), id("main"), SessionManager::Tmux, WS.to_string(), Vec::new());
    let (next, _) = open_step(state, OpenEvent::Begin(true));
    state = next;
    let (over, a) = open_step(state, OpenEvent::SessionReady(Err("Failed to create session: owner_repo".to_string())));
    assert_eq!(action(&a), "fail Failed to create session: owner_repo");
    assert!(!open_accepts(&over, &OpenEvent::SessionReady(Ok(()))));
    assert!(!open_accepts(&over, &OpenEvent::Begin(true)));
}

// --- session managers ---

fn herdr_sock() -> String {
    format!("{HOME}/.config/herdr/sessions/owner.repo/herdr.sock")
}

fn herdr_sessions_json(running: bool) -> String {
    format!(
        "{{\"sessions\":[{{\"default\":false,\"name\":\"owner.repo\",\"running\":{running},\"session_dir\":\"{HOME}/.config/herdr/sessions/owner.repo\",\"socket_path\":\"{}\"}}]}}\n",
        herdr_sock()
    )
}

fn herdr_workspaces_json(list: &[(&str, &str)]) -> String {
    let ws: Vec<String> = list
        .iter()
        .map(|(id, label)| format!("{{\"workspace_id\":\"{id}\",\"label\":\"{label}\",\"focused\":false}}"))
        .collect();
    format!(
        "{{\"id\":\"cli:workspace:list\",\"result\":{{\"type\":\"workspace_list\",\"workspaces\":[{}]}}}}\n",
        ws.join(",")
    )
}

fn zsh_quoted(s: &str) -> String {
    s.chars()
        .flat_map(|c| {
            let escaped = !(c.is_ascii_alphanumeric() || matches!(c, '_' | '.' | '/' | '-'));
            escaped.then_some('\\').into_iter().chain(std::iter::once(c))
        })
        .collect()
}

/// The herdr steps of `open`, from what `session list` printed once the
/// session runs and what `workspace list` printed: the arguments of the
/// main and the issue workspace actions, and the session to attach to.
fn herdr_open(issue: &str, listed: &[(&str, &str)]) -> (Vec<String>, Vec<String>, Result<String, String>) {
    let r = repo("owner/repo");
    let wid = id(issue);
    let sessions = herdr_sessions_json(true);
    let sock = herdr_socket_path(Some(&sessions), "owner.repo").unwrap();
    assert_eq!(sock, herdr_sock());
    let ws = herdr_workspaces(Some(&herdr_workspaces_json(listed)));
    let cwd = if wid.is_main() {
        "/h/ghq/github.com/owner/repo".to_string()
    } else {
        format!("/h/worktrees/github.com/owner/repo/{issue}")
    };
    let main_action = main_workspace_action(&r, &wid, "/h/ghq/github.com/owner/repo", &ws);
    let issue_action = issue_workspace_action(&wid, &cwd, &ws);
    let session = ensure(SessionManager::Herdr, &r, &wid, false, false, true, &HerdrStart::Running, Some(&sock), true, true);
    (action_args(&main_action), action_args(&issue_action), session)
}

#[test]
fn explicit_default_session_manager_overrides_order() {
    let cfg = format!("{}default_session_manager = \"herdr\"\n", managers_config(&["tmux", "herdr"]));
    let managers = session_managers(HOME, Some(&cfg));
    assert_eq!(list_session_managers(Some(&cfg), &managers), vec![("tmux", false), ("herdr", true)]);
    let manager = session_manager(None, Some(&cfg), &managers).unwrap();
    assert_eq!(manager, SessionManager::Herdr);
    let (main_args, _, session) = herdr_open("main", &[("w1", "repo")]);
    assert_eq!(main_args, vec!["workspace", "focus", "w1"]);
    assert_eq!(session.as_deref(), Ok("owner.repo"));
    assert_eq!(open_message(&repo("owner/repo"), &id("main"), manager, &[]), "Opened owner/repo (main) [herdr]");
}

#[test]
fn open_fails_when_no_session_manager_is_configured() {
    let managers = session_managers(HOME, Some(""));
    assert_eq!(
        session_manager(None, Some(""), &managers).err().as_deref(),
        Some("no session manager configured (set tmux_path / herdr_path in config.toml)")
    );
}

#[test]
fn open_issue_with_herdr_creates_workspace_in_repo_session() {
    let cfg = managers_config(&["herdr", "tmux"]);
    let managers = session_managers(HOME, Some(&cfg));
    assert_eq!(session_manager(None, Some(&cfg), &managers), Ok(SessionManager::Herdr));
    let (main_args, issue_args, session) = herdr_open("42", &[("w1", "repo")]);
    assert!(main_args.is_empty(), "the main workspace exists already");
    assert_eq!(issue_args.join(" "), "workspace create --cwd /h/worktrees/github.com/owner/repo/42 --label 42 --focus");
    assert_eq!(session.as_deref(), Ok("owner.repo"));
    assert_eq!(open_message(&repo("owner/repo"), &id("42"), SessionManager::Herdr, &[]), "Opened owner/repo 42 [herdr]");
}

#[test]
fn open_issue_with_herdr_focuses_existing_workspace() {
    let (main_args, issue_args, _) = herdr_open("42", &[("w1", "repo"), ("w7", "42")]);
    assert!(main_args.is_empty());
    assert_eq!(issue_args, vec!["workspace", "focus", "w7"]);
}

#[test]
fn open_issue_with_herdr_starts_session_headlessly_when_not_running() {
    assert!(!herdr_session_running(Some(&herdr_sessions_json(false)), "owner.repo"));
    assert_eq!(herdr_server_args("owner.repo"), vec!["--session", "owner.repo", "server"]);
    assert!(herdr_session_running(Some(&herdr_sessions_json(true)), "owner.repo"));
    let (main_args, issue_args, session) = herdr_open("42", &[]);
    assert_eq!(main_args.join(" "), "workspace create --cwd /h/ghq/github.com/owner/repo --label repo --no-focus");
    assert_eq!(issue_args.join(" "), "workspace create --cwd /h/worktrees/github.com/owner/repo/42 --label 42 --focus");
    assert!(session.is_ok());
}

#[test]
fn open_main_with_herdr_attaches_to_repo_session() {
    let (main_args, issue_args, session) = herdr_open("main", &[]);
    assert_eq!(main_args.join(" "), "workspace create --cwd /h/ghq/github.com/owner/repo --label repo --focus");
    assert!(issue_args.is_empty());
    let session = session.unwrap();
    assert_eq!(session, "owner.repo");
    assert_eq!(open_message(&repo("owner/repo"), &id("main"), SessionManager::Herdr, &[]), "Opened owner/repo (main) [herdr]");
    let script = format!("cd '/h/ghq/github.com/owner/repo' && exec '{FAKES}/herdr' --session 'owner.repo'");
    assert_eq!(
        attach_command(SessionManager::Herdr, &session, "/h/ghq/github.com/owner/repo", &format!("{FAKES}/herdr")),
        format!("/bin/bash -lc {}", zsh_quoted(&script))
    );
}

#[test]
fn open_main_with_herdr_focuses_existing_main_workspace() {
    let (main_args, issue_args, _) = herdr_open("main", &[("w1", "repo"), ("w7", "42")]);
    assert_eq!(main_args, vec!["workspace", "focus", "w1"]);
    assert!(issue_args.is_empty());
}

#[test]
fn remove_main_with_herdr_stops_session_when_no_issue_workspaces() {
    let r = repo("owner/repo");
    let sessions = herdr_sessions_json(true);
    let ws = herdr_workspaces_json(&[("w1", "repo")]);
    assert!(!herdr_blocks_main_removal(&r, Some(&sessions), Some(&ws)));
    let teardown = plan_views(&remove_plan(&r, &id("main"), true, Some(&sessions), Some(&ws), Some(""), None).unwrap());
    assert!(teardown.contains(&(Program::Herdr, "session stop owner.repo --json".to_string(), None)));
    assert!(teardown.contains(&(Program::Herdr, "session delete owner.repo --json".to_string(), None)));
    assert_eq!(remove_message(&r, &id("main")), "Removed session: owner/repo");
}

#[test]
fn remove_main_with_herdr_refusal_tears_nothing_down() {
    let r = repo("owner/repo");
    let sessions = herdr_sessions_json(true);
    let ws = herdr_workspaces_json(&[("w1", "my-workspace-manager"), ("w7", "CHH-111")]);
    assert_eq!(
        remove_plan(&r, &id("main"), true, Some(&sessions), Some(&ws), Some("c1\n"), None).err().as_deref(),
        Some("herdr session has open issue workspaces: owner.repo")
    );
}

// --- open --config ---

const WS: &str = "/h/ghq/github.com/owner/repo";

fn repo_config() -> String {
    format!("{WS}/.devcontainer/devcontainer.json")
}

#[test]
fn respects_configured_devcontainer_shell() {
    let cfg = format!("{}devcontainer_shell = \"bash\"\n", managers_config(&["tmux", "herdr"]));
    let shell = devcontainer_shell(None, Some(&cfg));
    assert_eq!(shell, "bash");
    let (cid, command) = exec_command(Some("abc123\n"), Some("[]\n"), HOME, WS, &shell).unwrap();
    let window = add_window(SessionManager::Tmux, "owner_repo", "🐳", &command, &cid, None).unwrap().join(" ");
    assert!(window.starts_with("new-window") && window.ends_with("'abc123' bash"), "{window}");
}

#[test]
fn open_with_config_reuses_running_container_and_dedups_window() {
    let r = repo("owner/repo");
    let session = ensure(SessionManager::Tmux, &r, &id("main"), true, false, false, &HerdrStart::Stalled, None, true, true).unwrap();
    let cname = config_name(WS, &repo_config());
    let before = state_for_config(Some("running\n"));
    let outcome = up(true, true, &repo_config(), before, true).unwrap();
    assert_eq!(outcome, Outcome::Reused);
    let (cid, command) = exec_command(Some("abc123\n"), Some("[{\"remoteUser\":\"dev\"}]\n"), HOME, WS, "zsh").unwrap();
    assert!(add_window(SessionManager::Tmux, &session, "🐳", &command, &cid, Some("abc123\n")).is_none());
    assert_eq!(
        open_message(&r, &id("main"), SessionManager::Tmux, &[(outcome, cname)]),
        "Opened owner/repo (main) [tmux] + devcontainer(s) [reused: repo]"
    );
}

#[test]
fn open_with_config_restarts_stopped_container() {
    let r = repo("owner/repo");
    let outcome = up(true, true, &repo_config(), state_for_config(Some("exited\n")), true).unwrap();
    assert_eq!(
        open_message(&r, &id("main"), SessionManager::Tmux, &[(outcome, config_name(WS, &repo_config()))]),
        "Opened owner/repo (main) [tmux] + devcontainer(s) [started: repo]"
    );
}

#[test]
fn open_with_multiple_configs_starts_each_container() {
    let r = repo("owner/repo");
    let main = id("main");
    let configs = [repo_config(), format!("{WS}/.devcontainer/alt/devcontainer.json")];
    let answers = ["cid-repo\n", "cid-alt\n"];
    let mut outcomes = Vec::new();
    for (cfg, ps) in configs.iter().zip(answers) {
        let cname = config_name(WS, cfg);
        let up_line = up_args(HOME, WS, &r, &main, WS, cfg, &cname).join(" ");
        assert!(up_line.starts_with("up ") && up_line.ends_with(&format!("--id-label wsm.config={cname}")), "{up_line}");
        assert!(container_id_args(&r, "main", &cname).join(" ").ends_with(&format!("wsm.config={cname}")));
        let cid = container_id(Some(ps)).unwrap();
        let (_, command) = exec_command(Some(ps), Some("[{\"remoteUser\":\"dev\"}]\n"), HOME, WS, "zsh").unwrap();
        assert!(command.contains(&format!("'{cid}'")), "{command}");
        outcomes.push((up(true, true, cfg, state_for_config(Some("")), true).unwrap(), cname));
    }
    assert_eq!(
        open_message(&r, &main, SessionManager::Tmux, &outcomes),
        "Opened owner/repo (main) [tmux] + devcontainer(s) [created: repo, created: repo-alt]"
    );
}

#[test]
fn open_fails_when_devcontainer_up_fails() {
    let cfg = repo_config();
    assert!(up(true, true, &cfg, state_for_config(Some("")), false).is_err());
    assert_eq!(up_failure(&cfg), format!("devcontainer up failed for {cfg}"));
}

// --- remove ---

#[test]
fn remove_issue_tears_down_session_and_worktree() {
    let r = repo("owner/repo");
    let plan = remove_plan(&r, &id("42"), true, None, None, Some(""), Some((WS, "/h/worktrees/github.com/owner/repo/42"))).unwrap();
    assert_eq!(
        plan_views(&plan),
        vec![
            (Program::Tmux, "kill-session -t =owner_repo_42".to_string(), None),
            (Program::Git, "-C /h/ghq/github.com/owner/repo worktree remove /h/worktrees/github.com/owner/repo/42".to_string(), None),
        ]
    );
    assert!(down(Some("")).is_empty());
    assert_eq!(remove_message(&r, &id("42")), "Removed worktree and session: owner/repo 42");
}

#[test]
fn remove_main_kills_session_but_keeps_the_clone() {
    let r = repo("owner/repo");
    let plan = remove_plan(&r, &id("main"), true, None, None, Some(""), Some((WS, WS))).unwrap();
    assert_eq!(plan_views(&plan), vec![(Program::Tmux, "kill-session -t =owner_repo".to_string(), None)]);
    assert!(!plan.iter().any(|c| c.program == Program::Git), "main never removes a worktree");
    assert_eq!(remove_message(&r, &id("main")), "Removed session: owner/repo");
}

fn plan_views(plan: &[Call]) -> Vec<(Program, String, Option<String>)> {
    plan.iter().map(|c| (c.program, c.args.join(" "), c.socket.clone())).collect()
}

#[test]
fn remove_tears_down_sessions_then_containers_then_the_worktree() {
    let r = repo("owner/repo");
    let sessions = herdr_sessions_json(true);
    let ws = herdr_workspaces_json(&[("w1", "repo"), ("w7", "42")]);
    let plan = remove_plan(&r, &id("42"), true, Some(&sessions), Some(&ws), Some("c1\nc2\n"), Some((WS, "/h/wt/42"))).unwrap();
    let order: Vec<Program> = plan.iter().map(|c| c.program).collect();
    assert_eq!(order, vec![Program::Tmux, Program::Herdr, Program::Docker, Program::Docker, Program::Git]);
    assert_eq!(plan[1].socket.as_deref(), Some(herdr_sock().as_str()));
    assert_eq!(plan[2].args.join(" "), "rm -f c1");
}
