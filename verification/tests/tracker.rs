use wsm::tracker::{group_page, info_answer, issue_answer};
use wsm::domains::RepoRef;
use wsm::json::parse_json;
use wsm::tracker::{
    group_issues, group_issues_args, info, issue, issue_args, issues_args, open_issues, repo_group_repos,
    repo_groups, IssueQuery, IssuesStep,
};

fn repo() -> RepoRef {
    RepoRef::parse("owner/repo").unwrap()
}

fn ids(items: &[wsm::tracker::IssueItem]) -> Vec<String> {
    items.iter().map(|i| i.id.clone()).collect()
}

#[test]
fn repo_groups_drop_invalid_ids() {
    let out = r#"[{"id":"1","title":"Group \\ A"},{"id":"5;x","title":"bad"},{"id":"7"},{"id":"8","title":"ok"}]"#;
    let groups = repo_groups(Some(out));
    assert_eq!(groups.len(), 2);
    assert_eq!(groups[0].str_at("id"), Some("1"));
    assert_eq!(groups[0].str_at("title"), Some("Group \\ A"));
    assert_eq!(groups[1].str_at("id"), Some("8"));
    assert!(repo_groups(None).is_empty());
    assert!(repo_groups(Some("not json")).is_empty());
}

#[test]
fn group_members_must_be_repositories() {
    assert_eq!(repo_group_repos(Some(r#"["owner/repo","bad",3,"owner/other"]"#)), vec!["owner/repo", "owner/other"]);
    assert!(repo_group_repos(None).is_empty());
}

#[test]
fn issue_query_arguments() {
    assert_eq!(
        issues_args(IssueQuery::V2, &repo(), Some("42"), Some("c1")),
        vec!["list-issues-v2", "--repo", "owner/repo", "--parent", "42", "--cursor", "c1"]
    );
    assert_eq!(
        issues_args(IssueQuery::V1, &repo(), Some("42"), Some("c1")),
        vec!["list-issues-v1", "--repo", "owner/repo", "--parent", "42"]
    );
    assert_eq!(issues_args(IssueQuery::V0, &repo(), Some("42"), None), vec!["list-issues-v0", "--repo", "owner/repo"]);
    assert_eq!(issue_args(&repo(), "41"), vec!["issue-v0", "--repo", "owner/repo", "--id", "41"]);
    assert_eq!(group_issues_args("7", Some("p2")), vec!["list-group-issues-v0", "--group", "7", "--cursor", "p2"]);
}

#[test]
fn list_issues_pages_through_v2_plugins() {
    let out = r#"{"issues":[{"id":"42","title":"Newest","has_children":true},{"id":"main","title":"bad"},{"id":"../x","title":"bad"}],"next_cursor":"page2=="}"#;
    match open_issues(IssueQuery::V2, Some(out), false, false) {
        IssuesStep::Done(items, cursor) => {
            assert_eq!(ids(&items), vec!["42"]);
            assert!(items[0].has_children);
            assert_eq!(cursor.as_deref(), Some("page2=="));
        }
        IssuesStep::Ask(_) => panic!("a page expected"),
    }
}

#[test]
fn invalid_cursor_from_plugin_is_dropped() {
    match open_issues(IssueQuery::V2, Some(r#"{"issues":[],"next_cursor":"a;b"}"#), false, false) {
        IssuesStep::Done(items, cursor) => {
            assert!(items.is_empty());
            assert!(cursor.is_none());
        }
        IssuesStep::Ask(_) => panic!("a page expected"),
    }
}

#[test]
fn list_issues_falls_back_to_v0_for_legacy_plugins() {
    assert!(matches!(open_issues(IssueQuery::V2, None, false, false), IssuesStep::Ask(IssueQuery::V1)));
    assert!(matches!(open_issues(IssueQuery::V1, None, false, false), IssuesStep::Ask(IssueQuery::V0)));
    match open_issues(IssueQuery::V0, Some(r#"[{"id":"42","title":"Fix bug","has_children":true},{"id":"43","title":"Add feature"}]"#), false, false) {
        IssuesStep::Done(items, cursor) => {
            assert_eq!(ids(&items), vec!["42", "43"]);
            assert!(!items[0].has_children, "v0 knows no hierarchy");
            assert!(cursor.is_none());
        }
        IssuesStep::Ask(_) => panic!("a page expected"),
    }
    match open_issues(IssueQuery::V0, None, false, false) {
        IssuesStep::Done(items, _) => assert!(items.is_empty()),
        IssuesStep::Ask(_) => panic!("v0 is the last verb"),
    }
}

#[test]
fn fallbacks_stop_where_the_older_verb_cannot_answer() {
    match open_issues(IssueQuery::V2, None, false, true) {
        IssuesStep::Done(items, cursor) => assert!(items.is_empty() && cursor.is_none()),
        IssuesStep::Ask(_) => panic!("v1 has no pages"),
    }
    match open_issues(IssueQuery::V1, Some("oops"), true, false) {
        IssuesStep::Done(items, _) => assert!(items.is_empty()),
        IssuesStep::Ask(_) => panic!("v0 has no hierarchy"),
    }
    match open_issues(IssueQuery::V1, Some(r#"[{"id":"421","title":"Child A","has_children":true}]"#), true, false) {
        IssuesStep::Done(items, _) => {
            assert_eq!(ids(&items), vec!["421"]);
            assert!(items[0].has_children);
        }
        IssuesStep::Ask(_) => panic!("a page expected"),
    }
}

#[test]
fn cross_repo_children_carry_their_home_repo() {
    let out = r#"[{"id":"9","title":"In lib","repo":"owner/lib"},{"id":"10","title":"Null","repo":null},{"id":"11","title":"Bad","repo":"x/y/z"},{"id":"12","title":"Num","repo":5}]"#;
    match open_issues(IssueQuery::V1, Some(out), false, false) {
        IssuesStep::Done(items, _) => {
            assert_eq!(ids(&items), vec!["9", "10"]);
            assert_eq!(items[0].repo.as_deref(), Some("owner/lib"));
            assert_eq!(items[1].repo, None);
        }
        IssuesStep::Ask(_) => panic!("a page expected"),
    }
}

#[test]
fn list_group_issues_spans_repositories() {
    let out = r#"{"issues":[{"id":"42","title":"App task","repo":"owner/repo","has_children":true},{"id":"9","title":"Lib task","repo":"owner/lib"},{"id":"1","title":"No repo"}],"next_cursor":"page2=="}"#;
    let (items, cursor) = group_issues(Some(out));
    assert_eq!(ids(&items), vec!["42", "9"]);
    assert!(items[0].has_children);
    assert_eq!(cursor.as_deref(), Some("page2=="));
    let (none, c) = group_issues(None);
    assert!(none.is_empty() && c.is_none());
}

#[test]
fn issue_maps_state_to_neutral_vocabulary() {
    assert_eq!(issue(Some(r#"{"title":"Old bug","state":"closed"}"#)), Some(("Old bug".to_string(), true)));
    assert_eq!(issue(Some(r#"{"title":"Deep child","state":"open"}"#)), Some(("Deep child".to_string(), false)));
    assert_eq!(issue(Some(r#"{"title":"x","state":"CLOSED"}"#)), None);
    assert_eq!(issue(Some(r#"{"state":"open"}"#)), None);
    assert_eq!(issue(None), None);
}

#[test]
fn plugin_self_check() {
    let (ready, diagnosis, protocol) = info(Some(r#"{"ready":false,"diagnosis":"no token","protocol":["info-v0",3,"list-issues-v1"]}"#)).unwrap();
    assert!(!ready);
    assert_eq!(diagnosis.as_deref(), Some("no token"));
    assert_eq!(protocol, Some(vec!["info-v0".to_string(), "list-issues-v1".to_string()]));
    assert!(info(Some(r#"{"diagnosis":"x"}"#)).is_none());
    assert!(info(None).is_none());
}

#[test]
fn json_reading_goes_through_serde() {
    let v = parse_json(r#"{"a":{"b":[1,true,null,"x"]},"n":18446744073709551615}"#).unwrap();
    assert_eq!(v.u64_at("n"), Some(u64::MAX));
    let inner = v.get("a").unwrap();
    let items = inner.array_at("b").unwrap();
    assert_eq!(items.len(), 4);
    assert!(parse_json("{").is_none());
}

#[test]
fn parsed_answers_read_as_the_raw_ones() {
    let page = parse_json(r#"{"issues":[{"id":"1","title":"a","repo":"o/r"},{"id":"2","title":"b"}],"next_cursor":"c2"}"#).unwrap();
    let (items, cursor) = group_page(&page);
    assert_eq!(ids(&items), vec!["1".to_string()]);
    assert_eq!(cursor.as_deref(), Some("c2"));
    let (raw_items, raw_cursor) = group_issues(Some(r#"{"issues":[{"id":"1","title":"a","repo":"o/r"},{"id":"2","title":"b"}],"next_cursor":"c2"}"#));
    assert_eq!(ids(&raw_items), ids(&items));
    assert_eq!(raw_cursor, cursor);
    let v = parse_json(r#"{"title":"Old","state":"closed"}"#).unwrap();
    assert_eq!(issue_answer(&v), Some(("Old".to_string(), true)));
    let v = parse_json(r#"{"title":"Old","state":"merged"}"#).unwrap();
    assert_eq!(issue_answer(&v), None);
    let v = parse_json(r#"{"ready":false,"diagnosis":"log in","protocol":["info-v0",3]}"#).unwrap();
    assert_eq!(info_answer(&v), Some((false, Some("log in".to_string()), Some(vec!["info-v0".to_string()]))));
    assert_eq!(info_answer(&parse_json(r#"{"diagnosis":"x"}"#).unwrap()), None);
}
