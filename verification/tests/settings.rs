use wsm::domains::{RepoEntry, RepoRef};
use wsm::settings::{
    config_file, config_value, custom_repos, default_devcontainer_candidate, default_devcontainer_config, default_manager_name,
    devcontainer_shell, expand_tilde, session_manager, session_managers, trackers, worktree_root,
    SessionManager,
};

#[test]
fn top_level_values_take_the_first_match() {
    let content = "# comment\nworktree_root = \"~/wt\"  # trailing\nworktree_root = \"/other\"\n";
    assert_eq!(config_value(Some(content), "worktree_root").as_deref(), Some("~/wt"));
    assert_eq!(config_value(Some(content), "missing"), None);
    assert_eq!(config_value(None, "worktree_root"), None);
}

#[test]
fn environment_overrides_settings_over_defaults() {
    let content = "worktree_root = \"~/wt\"\ndevcontainer_shell = \"bash\"\n";
    assert_eq!(worktree_root("/home/me", Some("/env/wt"), Some(content)), "/env/wt");
    assert_eq!(worktree_root("/home/me", Some(""), Some(content)), "/home/me/wt");
    assert_eq!(worktree_root("/home/me", None, None), "/home/me/worktrees");
    assert_eq!(devcontainer_shell(None, Some(content)), "bash");
    assert_eq!(devcontainer_shell(Some("fish"), Some(content)), "fish");
    assert_eq!(devcontainer_shell(None, None), "zsh");
    let named = "default_devcontainer_config = \"~/fallback/devcontainer.json\"\n";
    assert_eq!(
        default_devcontainer_candidate("/home/me", None, Some(named)).as_deref(),
        Some("/home/me/fallback/devcontainer.json")
    );
    assert_eq!(
        default_devcontainer_config("/home/me", None, Some(named), true).as_deref(),
        Some("/home/me/fallback/devcontainer.json")
    );
    assert_eq!(default_devcontainer_config("/home/me", None, Some(named), false), None);
    assert_eq!(default_devcontainer_candidate("/home/me", Some("/x/dc.json"), Some(named)).as_deref(), Some("/x/dc.json"));
    assert_eq!(default_devcontainer_config("/home/me", None, None, true), None);
}

#[test]
fn tilde_expansion() {
    assert_eq!(expand_tilde("/home/me", "~/x/y"), "/home/me/x/y");
    assert_eq!(expand_tilde("/home/me", "/abs"), "/abs");
    assert_eq!(expand_tilde("/home/me", "~x"), "~x");
}

#[test]
fn settings_file_location() {
    assert_eq!(config_file("/home/me", None), "/home/me/.config/wsm/config.toml");
    assert_eq!(config_file("/home/me", Some("/xdg")), "/xdg/wsm/config.toml");
}

#[test]
fn session_managers_follow_the_settings_order() {
    let content = "herdr_path = \"/bin/herdr\"\ntmux_path = \"~/bin/tmux\"\n";
    let managers = session_managers("/home/me", Some(content));
    assert_eq!(managers.names(), vec!["herdr", "tmux"]);
    assert_eq!(managers.default_manager().map(|m| m.name()), Some("herdr"));
    assert_eq!(managers.path(SessionManager::Tmux), Some("/home/me/bin/tmux"));
    assert_eq!(default_manager_name(Some(content), &managers), Some("herdr"));
    let explicit = format!("{content}default_session_manager = \"tmux\"\n");
    assert_eq!(default_manager_name(Some(&explicit), &managers), Some("tmux"));
    assert_eq!(session_manager(None, Some(&explicit), &managers).map(|m| m.name()), Ok("tmux"));
    assert_eq!(session_manager(Some("herdr"), Some(&explicit), &managers).map(|m| m.name()), Ok("herdr"));
}

#[test]
fn session_manager_errors() {
    let none = session_managers("/home/me", None);
    assert_eq!(
        session_manager(None, None, &none).map(|m| m.name()),
        Err("no session manager configured (set tmux_path / herdr_path in config.toml)".to_string())
    );
    let tmux_only = session_managers("/home/me", Some("tmux_path = \"/bin/tmux\"\n"));
    assert_eq!(
        session_manager(Some("herdr"), None, &tmux_only).map(|m| m.name()),
        Err("session manager not configured: herdr".to_string())
    );
    assert_eq!(
        session_manager(Some("screen"), None, &tmux_only).map(|m| m.name()),
        Err("Invalid session manager: screen".to_string())
    );
}

const TWO_TRACKERS: &str = "default_tracker = \"other\"\n[[tracker]]\nname = \"fake\"\npath = \"~/bin/tracker\"\nns = \"me, acme-corp\"\nowner = \"acme-corp\"\n[[tracker]]\nname = \"other\"\npath = \"/bin/tracker2\"\n";

#[test]
fn trackers_are_read_from_tables() {
    let t = trackers("/home/me", Some(TWO_TRACKERS)).expect("valid settings");
    assert_eq!(t.default_name(), Some("other"));
    let all: Vec<&str> = t.all().iter().map(|x| x.name()).collect();
    assert_eq!(all, vec!["other", "fake"]);
    let fake = t.named("fake").expect("configured");
    assert_eq!(fake.path(), "/home/me/bin/tracker");
    assert!(fake.claims_ns("acme-corp"));
    assert!(!fake.claims_ns("other"));
    assert_eq!(
        fake.env().to_vec(),
        vec![
            ("WSM_TRACKER_NAME".to_string(), "fake".to_string()),
            ("WSM_TRACKER_OWNER".to_string(), "acme-corp".to_string()),
        ]
    );
    assert_eq!(t.default_tracker().map(|x| x.name()), Ok("other"));
    assert_eq!(t.named("jira").map(|x| x.name()), Err("tracker not configured: jira".to_string()));
    assert_eq!(t.named_or_default(None).map(|x| x.name()), Ok("other"));
    assert_eq!(t.named_or_default(Some("fake")).map(|x| x.name()), Ok("fake"));
}

fn entry(ns_repo: &str, tracker: Option<&str>) -> RepoEntry {
    RepoEntry {
        repo: RepoRef::parse(ns_repo).unwrap(),
        host: "github.com".to_string(),
        clone_path: "/c".to_string(),
        tracker: tracker.map(str::to_string),
    }
}

#[test]
fn repositories_find_their_tracker() {
    let t = trackers("/home/me", Some(TWO_TRACKERS)).unwrap();
    let name = |r: Result<Option<&wsm::settings::Tracker>, String>| r.map(|o| o.map(|x| x.name().to_string()));
    assert_eq!(name(t.for_repo(&entry("acme-corp/app", None))), Ok(Some("fake".to_string())));
    assert_eq!(name(t.for_repo(&entry("someone/app", None))), Ok(Some("other".to_string())));
    assert_eq!(name(t.for_repo(&entry("acme-corp/app", Some("other")))), Ok(Some("other".to_string())));
    assert_eq!(name(t.for_repo(&entry("acme-corp/app", Some("jira")))), Err("tracker not configured: jira".to_string()));
    let none = trackers("/home/me", None).unwrap();
    assert_eq!(name(none.for_repo(&entry("acme-corp/app", None))), Ok(None));
    assert_eq!(
        none.default_tracker().map(|x| x.name()),
        Err("no tracker configured (add [[tracker]] to config.toml)".to_string())
    );
    assert!(none.all().is_empty());
}

#[test]
fn tracker_settings_errors() {
    let dup = "[[tracker]]\nname = \"fake\"\npath = \"/t\"\nns = \"acme\"\n[[tracker]]\nname = \"other\"\npath = \"/t2\"\nns = \"x, acme\"\n";
    assert_eq!(trackers("/h", Some(dup)).err(), Some("ns mapped to multiple trackers: acme (fake, other)".to_string()));
    let unknown_default = "default_tracker = \"jira\"\n[[tracker]]\nname = \"fake\"\npath = \"/t\"\n";
    assert_eq!(trackers("/h", Some(unknown_default)).err(), Some("tracker not configured: jira".to_string()));
    assert_eq!(trackers("/h", Some("[[tracker]]\npath = \"/t\"\n")).err(), Some("[[tracker]] requires name in config.toml".to_string()));
    assert_eq!(trackers("/h", Some("[[tracker]]\nname = \"t\"\n")).err(), Some("[[tracker]] requires path in config.toml".to_string()));
    assert_eq!(trackers("/h", Some("[[tracker]]\nname = \"a.b\"\npath = \"/t\"\n")).err(), Some("Invalid tracker name: a.b".to_string()));
    assert_eq!(trackers("/h", Some("[[tracker]]\nname = \"a\"\npath = \"/t\"\nns = \"ok, b_c\"\n")).err(), Some("Invalid tracker ns: b_c".to_string()));
}

#[test]
fn custom_repositories() {
    let content = "[[repo]]\npath = \"~/work/aaa\"\nhost = \"gitlab.example.com\"\nns = \"myteam\"\n[[repo]]\npath = \"/srv/x\"\nhost = \"h.example\"\nns = \"t\"\nname = \"y\"\ntracker = \"jira-team\"\n";
    let repos = custom_repos("/home/me", Some(content)).expect("valid");
    assert_eq!(repos.len(), 2);
    assert_eq!(repos[0].repo.ns_repo(), "myteam/aaa");
    assert_eq!(repos[0].clone_path, "/home/me/work/aaa");
    assert_eq!(repos[0].host, "gitlab.example.com");
    assert_eq!(repos[0].tracker, None);
    assert_eq!(repos[1].repo.ns_repo(), "t/y");
    assert_eq!(repos[1].tracker.as_deref(), Some("jira-team"));
}

#[test]
fn custom_repository_errors() {
    let cases = [
        ("[[repo]]\nhost = \"h\"\nns = \"n\"\n", "[[repo]] requires path in config.toml"),
        ("[[repo]]\npath = \"/p\"\nns = \"n\"\n", "[[repo]] requires host in config.toml"),
        ("[[repo]]\npath = \"/p\"\nhost = \"h\"\n", "[[repo]] requires ns in config.toml"),
        ("[[repo]]\npath = \"/\"\nhost = \"h\"\nns = \"n\"\n", "[[repo]] path has no basename for name"),
        ("[[repo]]\npath = \"/p\"\nhost = \"h/x\"\nns = \"n\"\n", "Invalid repo host: h/x"),
        ("[[repo]]\npath = \"/p\"\nhost = \"h\"\nns = \"my.team\"\n", "Invalid repo entry: my.team/p"),
        ("[[repo]]\npath = \"/p\"\nhost = \"h\"\nns = \"n\"\ntracker = \"a b\"\n", "Invalid tracker name: a b"),
    ];
    for (content, expected) in cases {
        assert_eq!(custom_repos("/home/me", Some(content)).err().as_deref(), Some(expected), "{content}");
    }
    assert!(custom_repos("/home/me", None).unwrap().is_empty());
}
