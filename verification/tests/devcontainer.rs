use wsm::devcontainer::{
    config_name, container_path, down, exec_command, exec_command_with, labels_args, remote_user,
    repo_configs, state, state_for_config, up, up_args, Outcome,
};
use wsm::domains::{RepoRef, WorkspaceId};

fn repo() -> RepoRef {
    RepoRef::parse("owner/repo").unwrap()
}

#[test]
fn container_states_aggregate() {
    assert_eq!(state(Some("exited\nrunning\n")), "running");
    assert_eq!(state(Some("exited\n")), "stopped");
    assert_eq!(state(Some("\n")), "none");
    assert_eq!(state(Some("")), "none");
    assert_eq!(state(None), "none");
}

#[test]
fn down_removes_every_listed_container() {
    assert_eq!(down(Some("a1\n\nb2\n")), vec!["a1", "b2"]);
    assert!(down(None).is_empty());
}

#[test]
fn label_filters() {
    assert_eq!(
        labels_args("owner/repo", "42", Some("repo"), "ps", "-q", ""),
        vec!["ps", "-q", "--filter", "label=wsm.ns-repo=owner/repo", "--filter", "label=wsm.issue-id=42", "--filter", "label=wsm.config=repo"]
    );
    assert_eq!(
        labels_args("owner/repo", "main", None, "ps", "-a", "{{.State}}"),
        vec!["ps", "-a", "--filter", "label=wsm.ns-repo=owner/repo", "--filter", "label=wsm.issue-id=main", "--format", "{{.State}}"]
    );
}

#[test]
fn config_names_follow_their_place() {
    let ws = "/h/ghq/github.com/owner/repo";
    assert_eq!(config_name(ws, &format!("{ws}/.devcontainer/devcontainer.json")), "repo");
    assert_eq!(config_name(ws, &format!("{ws}/.devcontainer.json")), "repo");
    assert_eq!(config_name(ws, &format!("{ws}/.devcontainer/alt/devcontainer.json")), "repo-alt");
    assert_eq!(config_name(ws, &format!("{ws}/.devcontainer//devcontainer.json")), "default");
    assert_eq!(config_name(ws, "/h/fallback/devcontainer.json"), "default");
}

#[test]
fn listed_configs_are_labelled_with_their_names() {
    let ws = "/h/ghq/github.com/owner/repo";
    let names = vec!["zeta".to_string(), "alt".to_string()];
    let configs = repo_configs(ws, true, true, &names);
    assert_eq!(
        configs,
        vec![
            ("repo".to_string(), format!("{ws}/.devcontainer/devcontainer.json")),
            ("repo-alt".to_string(), format!("{ws}/.devcontainer/alt/devcontainer.json")),
            ("repo-zeta".to_string(), format!("{ws}/.devcontainer/zeta/devcontainer.json")),
        ]
    );
    for (name, path) in &configs {
        assert_eq!(&config_name(ws, path), name);
    }
    assert_eq!(repo_configs(ws, false, true, &[])[0].1, format!("{ws}/.devcontainer.json"));
    assert!(repo_configs(ws, false, false, &[]).is_empty());
}

#[test]
fn an_empty_workspace_path_lists_configs_labelled_default() {
    let configs = repo_configs("", true, false, &[]);
    assert_eq!(configs, vec![("repo".to_string(), ".devcontainer/devcontainer.json".to_string())]);
    assert_eq!(config_name("", &configs[0].1), "default");
}

#[test]
fn up_outcome_follows_the_state_before() {
    assert_eq!(state_for_config(Some("running\n")), Some("running"));
    assert_eq!(state_for_config(Some("exited\n")), Some("stopped"));
    assert_eq!(state_for_config(Some("")), None);
    assert!(matches!(up(true, true, "/c.json", None, true), Ok(Outcome::Created)));
    assert!(matches!(up(true, true, "/c.json", Some("stopped"), true), Ok(Outcome::Started)));
    assert!(matches!(up(true, true, "/c.json", Some("running"), true), Ok(Outcome::Reused)));
    assert_eq!(up(false, true, "/c.json", None, true).err().as_deref(), Some("devcontainer CLI not installed"));
    assert_eq!(up(true, false, "/c.json", None, true).err().as_deref(), Some("Config not found: /c.json"));
    assert_eq!(up(true, true, "/c.json", None, false).err().as_deref(), Some("devcontainer up failed"));
    assert_eq!(Outcome::Created.label(), "created");
    assert_eq!(Outcome::Started.label(), "started");
    assert_eq!(Outcome::Reused.label(), "reused");
}

#[test]
fn open_issue_with_config_mounts_worktree_and_common_dir() {
    let home = "/h";
    let ws = "/h/worktrees/github.com/owner/repo/42";
    let args = up_args(home, "/h/ghq/github.com/owner/repo", &repo(), &WorkspaceId::parse("42"), ws, "/h/fallback/devcontainer.json", "default");
    assert_eq!(
        args.join(" "),
        "up --workspace-folder /h/worktrees/github.com/owner/repo/42 --config /h/fallback/devcontainer.json --id-label wsm.ns-repo=owner/repo --id-label wsm.issue-id=42 --id-label wsm.config=default --mount-git-worktree-common-dir --remote-env WSM_WORKTREE_PATH=/workspaces/worktrees/github.com/owner/repo/42 --remote-env WSM_WORKTREE_COMMON_DIR=/workspaces/ghq/github.com/owner/repo/.git"
    );
    let main = up_args(home, "/h/ghq/github.com/owner/repo", &repo(), &WorkspaceId::parse("main"), "/h/ghq/github.com/owner/repo", "/c.json", "repo");
    assert_eq!(main.len(), 11);
}

#[test]
fn container_paths_are_relative_to_home() {
    assert_eq!(container_path("/h", "/h/ghq/x"), "/workspaces/ghq/x");
    assert_eq!(container_path("/home/user", "/home/user2/x"), "/workspaces//home/user2/x");
}

#[test]
fn open_with_config_starts_devcontainer_and_adds_window() {
    let (cid, command) = exec_command(Some("abc123\n"), Some("[{\"remoteUser\":\"dev\"}]\n"), "/h", "/h/ghq/github.com/owner/repo", "zsh").unwrap();
    assert_eq!(cid, "abc123");
    assert_eq!(command, "docker exec -it --user 'dev' -w '/workspaces/ghq/github.com/owner/repo' 'abc123' zsh");
}

#[test]
fn devcontainer_window_without_remote_user_omits_user_flag() {
    let (_, command) = exec_command_with(Some("abc123\n"), Some("[]\n"), "/workspaces/x", "bash").unwrap();
    assert_eq!(command, "docker exec -it -w '/workspaces/x' 'abc123' bash");
    assert!(exec_command_with(Some(""), None, "/w", "zsh").is_none());
    assert_eq!(remote_user(Some("[{},{\"remoteUser\":\"a\"},{\"remoteUser\":\"b\"}]")).as_deref(), Some("a"));
    assert_eq!(remote_user(Some("not json")), None);
}
