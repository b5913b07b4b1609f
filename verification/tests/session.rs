use wsm::session::{herdr_start_accepts, herdr_start_step, HerdrStartAction, HerdrStartEvent, HerdrStartState};
use wsm::domains::{RepoRef, WorkspaceId};
use wsm::session::{
    action_args, add_window, attach_command, ensure, herdr_blocks_main_removal, herdr_session_running,
    herdr_socket_path, herdr_workspace_id, herdr_workspaces, issue_workspace_action, main_workspace_action,
    pane_key_args, quote_word, remove_workspace_sessions, workspace_session_exists, HerdrStart, WorkspaceAction,
};
use wsm::settings::SessionManager;

fn repo() -> RepoRef {
    RepoRef::parse("owner/repo").unwrap()
}

fn sessions(running: bool) -> String {
    format!("{{\"sessions\":[{{\"default\":false,\"name\":\"owner.repo\",\"running\":{running},\"socket_path\":\"/h/owner.repo/herdr.sock\"}}]}}\n")
}

fn workspaces(entries: &[(&str, &str)]) -> String {
    let ws: Vec<String> = entries
        .iter()
        .map(|(id, label)| format!("{{\"workspace_id\":\"{id}\",\"label\":\"{label}\",\"focused\":false}}"))
        .collect();
    format!("{{\"id\":\"cli:workspace:list\",\"result\":{{\"type\":\"workspace_list\",\"workspaces\":[{}]}}}}\n", ws.join(","))
}

#[test]
fn herdr_answers() {
    assert!(herdr_session_running(Some(&sessions(true)), "owner.repo"));
    assert!(!herdr_session_running(Some(&sessions(false)), "owner.repo"));
    assert!(!herdr_session_running(Some(&sessions(true)), "other.repo"));
    assert!(!herdr_session_running(None, "owner.repo"));
    assert_eq!(herdr_socket_path(Some(&sessions(false)), "owner.repo").as_deref(), Some("/h/owner.repo/herdr.sock"));
    let ws = herdr_workspaces(Some(&workspaces(&[("w1", "repo"), ("w7", "42")])));
    assert_eq!(ws, vec![("w1".to_string(), "repo".to_string()), ("w7".to_string(), "42".to_string())]);
    assert_eq!(herdr_workspace_id(&ws, "42").as_deref(), Some("w7"));
    assert_eq!(herdr_workspace_id(&ws, "43"), None);
}

#[test]
fn list_issues_marks_herdr_workspace_as_active() {
    let s = sessions(true);
    let w = workspaces(&[("w1", "repo"), ("w7", "42")]);
    assert!(workspace_session_exists(&repo(), &WorkspaceId::parse("main"), false, Some(&s), None));
    assert!(workspace_session_exists(&repo(), &WorkspaceId::parse("42"), false, Some(&s), Some(&w)));
    assert!(!workspace_session_exists(&repo(), &WorkspaceId::parse("43"), false, Some(&s), Some(&w)));
    assert!(workspace_session_exists(&repo(), &WorkspaceId::parse("43"), true, None, None));
    assert!(!workspace_session_exists(&repo(), &WorkspaceId::parse("main"), false, Some(&sessions(false)), None));
}

#[test]
fn remove_main_with_herdr_refuses_while_issue_workspaces_remain() {
    let s = sessions(true);
    assert!(herdr_blocks_main_removal(&repo(), Some(&s), Some(&workspaces(&[("w1", "my-workspace-manager"), ("w7", "CHH-111")]))));
    assert!(!herdr_blocks_main_removal(&repo(), Some(&s), Some(&workspaces(&[("w1", "repo")]))));
    assert!(!herdr_blocks_main_removal(&repo(), Some(&sessions(false)), Some(&workspaces(&[("w7", "42")]))));
}

fn views(v: &[wsm::session::Invocation]) -> Vec<(SessionManager, Vec<String>, Option<String>)> {
    v.iter().map(|c| (c.manager, c.args.clone(), c.socket.clone())).collect()
}

#[test]
fn remove_issue_with_herdr_closes_workspace_only() {
    let s = sessions(true);
    let calls = remove_workspace_sessions(&repo(), &WorkspaceId::parse("42"), true, Some(&s), Some(&workspaces(&[("w1", "repo"), ("w7", "42")])));
    assert_eq!(
        views(&calls),
        vec![
            (SessionManager::Tmux, vec!["kill-session".to_string(), "-t".to_string(), "=owner_repo_42".to_string()], None),
            (SessionManager::Herdr, vec!["workspace".to_string(), "close".to_string(), "w7".to_string()], Some("/h/owner.repo/herdr.sock".to_string())),
        ]
    );
}

#[test]
fn remove_last_herdr_issue_workspace_stops_the_session() {
    let s = sessions(true);
    let calls = remove_workspace_sessions(&repo(), &WorkspaceId::parse("42"), false, Some(&s), Some(&workspaces(&[("w7", "42")])));
    let args: Vec<Vec<String>> = calls.iter().map(|c| c.args.clone()).collect();
    assert_eq!(
        args,
        vec![
            vec!["workspace".to_string(), "close".to_string(), "w7".to_string()],
            vec!["session".to_string(), "stop".to_string(), "owner.repo".to_string(), "--json".to_string()],
            vec!["session".to_string(), "delete".to_string(), "owner.repo".to_string(), "--json".to_string()],
        ]
    );
    let main = remove_workspace_sessions(&repo(), &WorkspaceId::parse("main"), false, Some(&s), None);
    assert_eq!(main.len(), 2);
    assert!(remove_workspace_sessions(&repo(), &WorkspaceId::parse("main"), false, Some(&sessions(false)), None).is_empty());
}

#[test]
fn open_with_herdr_workspace_actions() {
    let none: Vec<(String, String)> = vec![];
    let main_action = main_workspace_action(&repo(), &WorkspaceId::parse("main"), "/h/ghq/github.com/owner/repo", &none);
    assert_eq!(action_args(&main_action), vec!["workspace", "create", "--cwd", "/h/ghq/github.com/owner/repo", "--label", "repo", "--focus"]);
    let for_issue = main_workspace_action(&repo(), &WorkspaceId::parse("42"), "/c", &none);
    assert_eq!(action_args(&for_issue).last().map(String::as_str), Some("--no-focus"));
    let existing = vec![("w1".to_string(), "repo".to_string())];
    assert!(matches!(main_workspace_action(&repo(), &WorkspaceId::parse("42"), "/c", &existing), WorkspaceAction::Keep));
    assert_eq!(action_args(&main_workspace_action(&repo(), &WorkspaceId::parse("main"), "/c", &existing)), vec!["workspace", "focus", "w1"]);
    let issue = issue_workspace_action(&WorkspaceId::parse("42"), "/wt/42", &existing);
    assert_eq!(action_args(&issue), vec!["workspace", "create", "--cwd", "/wt/42", "--label", "42", "--focus"]);
    let focus = issue_workspace_action(&WorkspaceId::parse("42"), "/wt/42", &[("w7".to_string(), "42".to_string())]);
    assert_eq!(action_args(&focus), vec!["workspace", "focus", "w7"]);
}

#[test]
fn ensure_outcomes() {
    let r = repo();
    let main = WorkspaceId::parse("main");
    assert_eq!(ensure(SessionManager::Tmux, &r, &main, true, false, false, &HerdrStart::Stalled, None, true, true), Ok("owner_repo".to_string()));
    assert_eq!(ensure(SessionManager::Tmux, &r, &main, false, false, false, &HerdrStart::Stalled, None, true, true), Err("Failed to create session: owner_repo".to_string()));
    assert_eq!(ensure(SessionManager::Herdr, &r, &main, false, false, false, &HerdrStart::Running, Some("/s"), true, true), Err("herdr not installed".to_string()));
    assert_eq!(ensure(SessionManager::Herdr, &r, &main, false, false, true, &HerdrStart::SpawnFailed("no such file".to_string()), None, true, true), Err("failed to start herdr session: owner.repo (no such file)".to_string()));
    assert_eq!(ensure(SessionManager::Herdr, &r, &main, false, false, true, &HerdrStart::Stalled, None, true, true), Err("failed to start herdr session: owner.repo".to_string()));
    assert_eq!(ensure(SessionManager::Herdr, &r, &main, false, false, true, &HerdrStart::Running, None, true, true), Err("failed to resolve herdr socket: owner.repo".to_string()));
    assert_eq!(ensure(SessionManager::Herdr, &r, &main, false, false, true, &HerdrStart::Running, Some("/s"), false, true), Err("failed to create herdr workspace".to_string()));
    assert_eq!(ensure(SessionManager::Herdr, &r, &main, false, false, true, &HerdrStart::Running, Some("/s"), true, true), Ok("owner.repo".to_string()));
}

#[test]
fn windows_are_deduplicated_by_key() {
    assert!(add_window(SessionManager::Tmux, "owner_repo", "🐳", "docker exec", "abc123", Some("abc123\n")).is_none());
    assert!(add_window(SessionManager::Herdr, "owner.repo", "🐳", "docker exec", "abc123", None).is_none());
    let args = add_window(SessionManager::Tmux, "owner_repo", "🐳", "docker exec -it 'abc123' zsh", "abc123", Some("\n")).unwrap();
    assert_eq!(args.join(" "), "new-window -d -P -F #{pane_id} -t owner_repo: -n 🐳 docker exec -it 'abc123' zsh");
    assert_eq!(pane_key_args(Some("%5\n"), "abc123").unwrap().join(" "), "set-option -p -t %5 @wsm_cid abc123");
    assert!(pane_key_args(Some("\n"), "abc123").is_none());
}

fn zsh_quoted(s: &str) -> String {
    s.chars()
        .flat_map(|c| {
            let escaped = !(c.is_ascii_alphanumeric() || matches!(c, '_' | '.' | '/' | '-'));
            escaped.then_some('\\').into_iter().chain(std::iter::once(c))
        })
        .collect()
}

#[test]
fn attach_commands() {
    assert_eq!(attach_command(SessionManager::Tmux, "owner_repo", "/ws", "/opt/homebrew/bin/tmux"), "/opt/homebrew/bin/tmux attach-session -t 'owner_repo'");
    let script = "cd '/h/ghq/github.com/owner/repo' && exec '/fakes/herdr' --session 'owner.repo'";
    assert_eq!(
        attach_command(SessionManager::Herdr, "owner.repo", "/h/ghq/github.com/owner/repo", "/fakes/herdr"),
        format!("/bin/bash -lc {}", zsh_quoted(script))
    );
    assert_eq!(quote_word("a b'c/d_e.f-g"), "a\\ b\\'c/d_e.f-g");
}

#[test]
fn tmux_session_is_created_only_when_missing() {
    assert_eq!(wsm::session::tmux_prepare("owner_repo", "/w", true), None);
    assert_eq!(
        wsm::session::tmux_prepare("owner_repo", "/w", false),
        Some(vec!["new-session".to_string(), "-d".to_string(), "-s".to_string(), "owner_repo".to_string(), "-c".to_string(), "/w".to_string()])
    );
}

/// Runs the herdr start steps against a scripted machine: the answers of
/// the successive session list reads and of the spawn. Answers the
/// outcome, the number of spawns and of reads.
fn run_herdr_start(reads: &[bool], spawn: Result<(), String>) -> (HerdrStart, usize, usize) {
    let mut next_read = 0;
    let mut read = || {
        let r = reads.get(next_read).copied().unwrap_or(false);
        next_read += 1;
        r
    };
    let mut spawns = 0;
    let mut state = HerdrStartState::Probe;
    let mut event = HerdrStartEvent::Running(read());
    loop {
        assert!(herdr_start_accepts(&state, &event));
        let (s, action) = herdr_start_step(state, event);
        state = s;
        event = match action {
            HerdrStartAction::Spawn => {
                spawns += 1;
                HerdrStartEvent::Spawned(spawn.clone())
            }
            HerdrStartAction::Probe | HerdrStartAction::Wait => HerdrStartEvent::Running(read()),
            HerdrStartAction::Done(start) => {
                assert!(!herdr_start_accepts(&state, &HerdrStartEvent::Running(true)));
                return (start, spawns, next_read);
            }
        };
    }
}

#[test]
fn herdr_start_leaves_a_running_session_alone() {
    let (start, spawns, reads) = run_herdr_start(&[true], Ok(()));
    assert!(matches!(start, HerdrStart::Running));
    assert_eq!((spawns, reads), (0, 1));
}

#[test]
fn herdr_start_spawns_once_and_reads_until_it_runs() {
    let (start, spawns, reads) = run_herdr_start(&[false, false, false, true], Ok(()));
    assert!(matches!(start, HerdrStart::Running));
    assert_eq!((spawns, reads), (1, 4));
}

#[test]
fn herdr_start_reports_a_failed_spawn() {
    let (start, spawns, reads) = run_herdr_start(&[false], Err("no such file".to_string()));
    assert!(matches!(start, HerdrStart::SpawnFailed(ref e) if e == "no such file"));
    assert_eq!((spawns, reads), (1, 1));
    let message = ensure(SessionManager::Herdr, &repo(), &WorkspaceId::parse("main"), false, false, true, &start, None, true, true);
    assert_eq!(message, Err("failed to start herdr session: owner.repo (no such file)".to_string()));
}

#[test]
fn herdr_start_stalls_after_fifty_reads() {
    let (start, spawns, reads) = run_herdr_start(&[false], Ok(()));
    assert!(matches!(start, HerdrStart::Stalled));
    assert_eq!((spawns, reads), (1, 51));
    let mut fifty = vec![false; 50];
    fifty.push(true);
    let (start, _, reads) = run_herdr_start(&fifty, Ok(()));
    assert!(matches!(start, HerdrStart::Running));
    assert_eq!(reads, 51);
}
