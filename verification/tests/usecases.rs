use wsm::usecases::active_worktree_ids;
use wsm::devcontainer::Outcome;
use wsm::domains::{Paths, RepoEntry, RepoRef, WorkspaceId};
use wsm::settings::{session_managers, trackers, SessionManager};
use wsm::devcontainer::state;
use wsm::tracker::{issue, IssueItem};
use wsm::usecases::{
    active_count, config_rows, group_entries, group_issue_row, issue_row, issue_rows, item_context, list_repo_groups,
    list_session_managers, main_row, open_message, orphan_ids, orphan_row, placed_worktrees, remove_message,
    remove_refusal, sort_entries, tracker_group_rows, tracker_row, up_failure, workspace_row,
};

fn repo(s: &str) -> RepoRef {
    RepoRef::parse(s).unwrap()
}

fn item(id: &str, title: &str, repo: Option<&str>, has_children: bool) -> IssueItem {
    IssueItem { id: id.to_string(), title: title.to_string(), has_children, repo: repo.map(str::to_string) }
}

fn entry(ns_repo: &str, host: &str) -> RepoEntry {
    RepoEntry { repo: repo(ns_repo), host: host.to_string(), clone_path: format!("/c/{ns_repo}"), tracker: None }
}

#[test]
fn repo_groups_aggregate_all_trackers_with_default_first() {
    let content = "default_tracker = \"other\"\n[[tracker]]\nname = \"fake\"\npath = \"/t1\"\n[[tracker]]\nname = \"other\"\npath = \"/t2\"\n";
    let t = trackers("/h", Some(content)).unwrap();
    let asked: Vec<&str> = list_repo_groups(&t).unwrap().iter().map(|x| x.name()).collect();
    assert_eq!(asked, vec!["other", "fake"]);
    let rows = tracker_group_rows(t.named("fake").unwrap(), Some(r#"[{"id":"1","title":"Personal"}]"#));
    assert_eq!(rows.len(), 1);
    assert_eq!(rows[0].tracker, "fake");
    assert_eq!(rows[0].group.str_at("title"), Some("Personal"));
    assert!(tracker_group_rows(t.named("fake").unwrap(), None).is_empty());
    let none = trackers("/h", None).unwrap();
    assert_eq!(list_repo_groups(&none).err().as_deref(), Some("no tracker configured (add [[tracker]] to config.toml)"));
}

#[test]
fn list_issues_rows() {
    let asked = repo("owner/repo");
    let active = vec!["42".to_string()];
    let own = issue_row(&item("42", "Fix bug", None, true), &asked, &active, false, "stopped");
    assert_eq!((own.id.as_str(), own.repo.as_str(), own.active, own.closed, own.devcontainer.as_str(), own.has_children), ("42", "owner/repo", true, false, "stopped", true));
    let foreign = item("9", "In lib", Some("owner/lib"), false);
    assert_eq!(item_context(&foreign, &asked).map(|r| r.ns_repo()), Some("owner/lib".to_string()));
    let row = issue_row(&foreign, &asked, &active, true, "running");
    assert_eq!((row.repo.as_str(), row.active, row.devcontainer.as_str()), ("owner/lib", true, "running"));
    let same = item("421", "Same repo", Some("owner/repo"), false);
    assert!(item_context(&same, &asked).is_none());
    assert!(!issue_row(&same, &asked, &active, true, "none").active);
    let main = main_row(&asked, false, "none");
    assert_eq!((main.id.as_str(), main.title.as_str(), main.repo.as_str(), main.has_children), ("main", "main", "owner/repo", false));
}

#[test]
fn list_issues_shows_orphaned_worktrees_with_real_state_in_worktree_order() {
    let asked = repo("owner/repo");
    let paths = Paths { home: "/h".to_string(), worktree_root: "/h/worktrees".to_string() };
    let e = RepoEntry { repo: repo("owner/repo"), host: "github.com".to_string(), clone_path: "/h/ghq/github.com/owner/repo".to_string(), tracker: None };
    let porcelain = "worktree /h/worktrees/github.com/owner/repo/41\nHEAD aaa\nbranch refs/heads/feature/41\n\nworktree /h/worktrees/github.com/owner/repo/42\nHEAD bbb\nbranch refs/heads/feature/42\n\n";
    let active: Vec<String> = placed_worktrees(&paths, &e, porcelain).into_iter().map(|(id, _)| id).collect();
    assert_eq!(active, vec!["41", "42"]);
    let page = vec![item("43", "Other work", None, false)];
    let orphans = orphan_ids(&active, &page);
    assert_eq!(orphans, vec!["41", "42"]);
    let answers = [
        issue(Some(r#"{"title":"Old bug","state":"closed"}"#)),
        issue(Some(r#"{"title":"Deep child","state":"open"}"#)),
    ];
    let facts = vec![(false, "none".to_string())];
    let first = Some((false, "none".to_string(), answers.iter().map(|a| (a.clone(), "none".to_string())).collect()));
    let rows: Vec<(String, String, bool, bool)> = issue_rows(&asked, &page, &active, &facts, first)
        .iter()
        .map(|r| (r.id.clone(), r.title.clone(), r.active, r.closed))
        .collect();
    assert_eq!(
        rows,
        vec![
            ("main".to_string(), "main".to_string(), false, false),
            ("43".to_string(), "Other work".to_string(), false, false),
            ("41".to_string(), "Old bug".to_string(), true, true),
            ("42".to_string(), "Deep child".to_string(), true, false),
        ]
    );
    let unknown = orphan_row(&asked, "42", None, "none");
    assert_eq!((unknown.title.as_str(), unknown.closed), ("unknown", true));
}

#[test]
fn list_issues_aggregates_devcontainer_states() {
    let asked = repo("owner/repo");
    let page = vec![item("42", "Fix bug", None, false), item("43", "Add feature", None, false)];
    let facts = vec![(false, state(Some("exited\n")).to_string()), (false, state(Some("exited\nrunning\n")).to_string())];
    let rows: Vec<(String, String)> = issue_rows(&asked, &page, &[], &facts, Some((false, state(Some("")).to_string(), Vec::new())))
        .iter()
        .map(|r| (r.id.clone(), r.devcontainer.clone()))
        .collect();
    assert_eq!(
        rows,
        vec![
            ("main".to_string(), "none".to_string()),
            ("42".to_string(), "stopped".to_string()),
            ("43".to_string(), "running".to_string()),
        ]
    );
}

#[test]
fn group_issue_rows_use_their_own_repository() {
    let row = group_issue_row(&item("9", "Lib task", Some("owner/lib"), false), true, "none").unwrap();
    assert_eq!((row.repo.as_str(), row.active), ("owner/lib", true));
    assert!(group_issue_row(&item("1", "No repo", None, false), false, "none").is_none());
}

#[test]
fn active_worktrees_must_sit_where_they_belong() {
    let paths = Paths { home: "/h".to_string(), worktree_root: "/h/worktrees".to_string() };
    let e = RepoEntry { repo: repo("owner/repo"), host: "github.com".to_string(), clone_path: "/h/ghq/github.com/owner/repo".to_string(), tracker: None };
    let porcelain = "worktree /h/ghq/github.com/owner/repo\nbranch refs/heads/main\n\nworktree /h/worktrees/github.com/owner/repo/42\nbranch refs/heads/feature/42\n\nworktree /elsewhere/43\nbranch refs/heads/feature/43\n";
    assert_eq!(
        placed_worktrees(&paths, &e, porcelain),
        vec![("42".to_string(), "/h/worktrees/github.com/owner/repo/42".to_string())]
    );
    assert_eq!(active_count(1, true), 2);
    assert_eq!(active_count(0, false), 0);
}

#[test]
fn list_repos_lists_all_repos_sorted() {
    let sorted = sort_entries(vec![entry("owner/b", "h1"), entry("owner/a", "h1"), entry("alpha/z", "h1"), entry("owner/a", "h2")]);
    let keys: Vec<(String, String)> = sorted.iter().map(|e| (e.repo.ns_repo(), e.host.clone())).collect();
    assert_eq!(
        keys,
        vec![
            ("alpha/z".to_string(), "h1".to_string()),
            ("owner/a".to_string(), "h1".to_string()),
            ("owner/a".to_string(), "h2".to_string()),
            ("owner/b".to_string(), "h1".to_string()),
        ]
    );
}

#[test]
fn list_repos_filters_group_repos_by_local_clones() {
    let store = vec![entry("owner/repo", "github.com"), entry("owner/x", "github.com")];
    let picked = group_entries(Some(r#"["owner/repo","owner/other"]"#), &store);
    let names: Vec<String> = picked.iter().map(|e| e.repo.ns_repo()).collect();
    assert_eq!(names, vec!["owner/repo"]);
}

#[test]
fn list_session_managers_returns_configured_order() {
    let content = "herdr_path = \"/h\"\ntmux_path = \"/t\"\n";
    let m = session_managers("/home", Some(content));
    assert_eq!(list_session_managers(Some(content), &m), vec![("herdr", true), ("tmux", false)]);
    let explicit = format!("{content}default_session_manager = \"tmux\"\n");
    assert_eq!(list_session_managers(Some(&explicit), &m), vec![("herdr", false), ("tmux", true)]);
}

#[test]
fn list_trackers_reports_installed_and_ready_state() {
    let t = trackers("/h", Some("[[tracker]]\nname = \"fake\"\npath = \"/t\"\n")).unwrap();
    let fake = t.named("fake").unwrap();
    let row = tracker_row(fake, t.default_name(), true, Some(r#"{"ready":true,"protocol":["info-v0"]}"#));
    assert_eq!((row.name.as_str(), row.path.as_str(), row.default, row.installed, row.ready), ("fake", "/t", true, true, Some(true)));
    assert_eq!(row.protocol, Some(vec!["info-v0".to_string()]));
    let missing = tracker_row(fake, None, false, Some(r#"{"ready":true}"#));
    assert_eq!((missing.default, missing.ready, missing.diagnosis, missing.protocol), (false, None, None, None));
}

#[test]
fn list_devcontainer_configs_includes_configured_fallback() {
    let rows = config_rows(vec![("repo".to_string(), "/ws/.devcontainer.json".to_string())], Some("/h/fallback/devcontainer.json".to_string()));
    assert_eq!(
        rows,
        vec![
            ("repo".to_string(), "/ws/.devcontainer.json".to_string(), "repo".to_string()),
            ("default".to_string(), "/h/fallback/devcontainer.json".to_string(), "default".to_string()),
        ]
    );
}

#[test]
fn open_and_remove_messages() {
    let r = repo("owner/repo");
    assert_eq!(open_message(&r, &WorkspaceId::parse("main"), SessionManager::Tmux, &[]), "Opened owner/repo (main) [tmux]");
    assert_eq!(open_message(&r, &WorkspaceId::parse("42"), SessionManager::Herdr, &[]), "Opened owner/repo 42 [herdr]");
    assert_eq!(
        open_message(&r, &WorkspaceId::parse("main"), SessionManager::Tmux, &[(Outcome::Created, "repo".to_string()), (Outcome::Reused, "repo-alt".to_string())]),
        "Opened owner/repo (main) [tmux] + devcontainer(s) [created: repo, reused: repo-alt]"
    );
    assert_eq!(up_failure("/c.json"), "devcontainer up failed for /c.json");
    assert_eq!(remove_refusal(&r), "herdr session has open issue workspaces: owner.repo");
    assert_eq!(remove_message(&r, &WorkspaceId::parse("main")), "Removed session: owner/repo");
    assert_eq!(remove_message(&r, &WorkspaceId::parse("42")), "Removed worktree and session: owner/repo 42");
    let w = workspace_row(&r, &WorkspaceId::parse("42"), true, None, "none");
    assert_eq!((w.title.as_str(), w.closed), ("unknown", false));
}

#[test]
fn active_worktrees_need_their_directory_and_a_session() {
    let placed = vec![
        ("1".to_string(), "/w/1".to_string()),
        ("2".to_string(), "/w/2".to_string()),
        ("3".to_string(), "/w/3".to_string()),
        ("4".to_string(), "/w/4".to_string()),
    ];
    let facts = vec![(true, true), (false, true), (true, false), (true, true)];
    assert_eq!(active_worktree_ids(&placed, &facts), vec!["1".to_string(), "4".to_string()]);
    assert!(active_worktree_ids(&[], &[]).is_empty());
}
