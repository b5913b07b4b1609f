use wsm::domains::{RepoEntry, RepoRef};
use wsm::repostore::{entries, find, ghq_entries, ghq_entry, lookup, root};

fn chars(s: &str) -> Vec<char> {
    s.chars().collect()
}

fn entry(ns_repo: &str, host: &str) -> RepoEntry {
    RepoEntry { repo: RepoRef::parse(ns_repo).unwrap(), host: host.to_string(), clone_path: format!("/c/{host}/{ns_repo}"), tracker: None }
}

#[test]
fn respects_custom_ghq_root() {
    assert_eq!(root("/home/me", Some("/srv/ghq\n")), "/srv/ghq");
    assert_eq!(root("/home/me", Some("  \n")), "/home/me/ghq");
    assert_eq!(root("/home/me", None), "/home/me/ghq");
}

#[test]
fn ghq_lines_become_entries() {
    let e = ghq_entry("/r", &chars("gitlab.example.com/team/app")).unwrap();
    assert_eq!(e.repo.ns_repo(), "team/app");
    assert_eq!(e.host, "gitlab.example.com");
    assert_eq!(e.clone_path, "/r/gitlab.example.com/team/app");
    assert!(e.tracker.is_none());
    assert!(ghq_entry("/r", &chars("github.com/group/sub/app")).is_none());
    assert!(ghq_entry("/r", &chars("github.com/app")).is_none());
    assert!(ghq_entry("/r", &chars("bad_host/o/r")).is_none());
    let all = ghq_entries("/r", Some("github.com/owner/repo\nnoise\ngithub.com/owner/.github\n"));
    let names: Vec<String> = all.iter().map(|e| e.repo.ns_repo()).collect();
    assert_eq!(names, vec!["owner/repo", "owner/.github"]);
    assert!(ghq_entries("/r", None).is_empty());
}

#[test]
fn store_entries_put_ghq_first() {
    let content = "[[repo]]\npath = \"~/work/aaa\"\nhost = \"gitlab.example.com\"\nns = \"myteam\"\n";
    let all = entries("/home/me", None, Some("github.com/owner/repo\n"), Some(content)).unwrap();
    let names: Vec<String> = all.iter().map(|e| e.repo.ns_repo()).collect();
    assert_eq!(names, vec!["owner/repo", "myteam/aaa"]);
    assert_eq!(all[0].clone_path, "/home/me/ghq/github.com/owner/repo");
    assert_eq!(entries("/home/me", None, None, Some("[[repo]]\nhost = \"h\"\n")).err().as_deref(), Some("[[repo]] requires path in config.toml"));
}

#[test]
fn ambiguous_repo_across_hosts_is_an_error() {
    let store = vec![entry("owner/repo", "github.com"), entry("owner/other", "github.com"), entry("owner/repo", "gitlab.example.com")];
    let r = RepoRef::parse("owner/repo").unwrap();
    assert_eq!(find(&store, &r).err().as_deref(), Some("ambiguous repository: owner/repo (github.com, gitlab.example.com)"));
    let other = RepoRef::parse("owner/other").unwrap();
    assert_eq!(find(&store, &other).unwrap().unwrap().clone_path, "/c/github.com/owner/other");
    let missing = RepoRef::parse("owner/none").unwrap();
    assert!(find(&store, &missing).unwrap().is_none());
    assert_eq!(lookup(&store, &missing).err().as_deref(), Some("repository not found: owner/none"));
    assert_eq!(lookup(&store, &other).unwrap().repo.ns_repo(), "owner/other");
}
