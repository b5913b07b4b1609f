use wsm::github::{
    api_info, api_url, gh_answer, token, flag, gh_info, graphql_error, issue_answer, issue_list, next_page, numeric, open_projects, optional_flag, owner,
    parse_u64, project_items, protocol, repo_names, scope_diagnosis, scopes_header, split_repo, usage, verb,
    NodeFilter, Plugin, Verb,
};
use wsm::text::nonempty_lines_of;
use wsm::tracker::IssueQuery;
use wsm::json::parse_json;
use wsm::tracker::IssueItem;

fn items(list: &[IssueItem]) -> Vec<(String, String, bool, Option<String>)> {
    list.iter().map(|i| (i.id.clone(), i.title.clone(), i.has_children, i.repo.clone())).collect()
}

fn item(id: &str, title: &str, has_children: bool, repo: Option<&str>) -> (String, String, bool, Option<String>) {
    (id.to_string(), title.to_string(), has_children, repo.map(str::to_string))
}

fn args(list: &[&str]) -> Vec<String> {
    list.iter().map(|s| s.to_string()).collect()
}

#[test]
fn flags_of_a_plugin() {
    let a = args(&["--repo", "a/b", "--repo", "owner/repo", "--parent", ""]);
    assert_eq!(flag(&a, "--repo").as_deref(), Ok("owner/repo"));
    assert_eq!(flag(&a, "--id").err().as_deref(), Some("--id required"));
    assert_eq!(optional_flag(&a, "--parent"), None);
}

#[test]
fn numbers_and_repositories() {
    assert_eq!(parse_u64("42"), Some(42));
    assert_eq!(parse_u64("+7"), Some(7));
    assert_eq!(parse_u64("18446744073709551615"), Some(u64::MAX));
    assert_eq!(parse_u64("18446744073709551616"), None);
    assert_eq!(parse_u64(""), None);
    assert_eq!(parse_u64("+"), None);
    assert_eq!(parse_u64("4a"), None);
    for s in ["0", "12", "+3", "-3", "", "99999999999999999999", "007"] {
        assert_eq!(parse_u64(s), s.parse::<u64>().ok(), "{s}");
    }
    assert_eq!(numeric("abc", "group").err().as_deref(), Some("Invalid group: abc (GitHub の id は番号)"));
    assert_eq!(split_repo("owner/repo"), Ok(("owner".to_string(), "repo".to_string())));
    assert_eq!(split_repo("norepo").err().as_deref(), Some("Invalid repo: norepo"));
}

#[test]
fn info_reports_ready_when_scopes_include_read_project() {
    let response = "HTTP/2.0 200 OK\nX-Oauth-Scopes: gist, read:org, read:project, repo\n\n{\"login\":\"me\"}\n";
    assert_eq!(scopes_header(response).as_deref(), Some("gist, read:org, read:project, repo"));
    assert_eq!(gh_info(Ok(response.to_string())), (true, None));
}

#[test]
fn info_reports_missing_read_project_scope_with_fix() {
    let response = "HTTP/2.0 200 OK\nx-oauth-scopes: gist, repo\n\n{}\n";
    assert_eq!(
        gh_info(Ok(response.to_string())),
        (false, Some("gh token is missing scope read:project (run: gh auth refresh -h github.com -s read:project)".to_string()))
    );
    assert_eq!(scope_diagnosis(None), None);
    assert_eq!(gh_info(Err("gh api failed: boom".to_string())), (false, Some("gh api failed: boom".to_string())));
}

#[test]
fn list_projects_filters_closed_and_maps_ids_to_strings() {
    let v = parse_json(r#"[{"number":1,"title":"Open","closed":false},{"number":2,"title":"Closed","closed":true},{"number":3,"title":"NoFlag"},{"title":"NoNumber"}]"#).unwrap();
    let nodes = v.items().unwrap();
    assert_eq!(open_projects(nodes), vec![("1".to_string(), "Open".to_string()), ("3".to_string(), "NoFlag".to_string())]);
}

#[test]
fn list_issues_v1_top_level_filters_out_children() {
    let v = parse_json(r#"[
        {"number":100,"title":"Epic","parent":null,"subIssues":{"nodes":[{"state":"OPEN"},{"state":"CLOSED"}]}},
        {"number":110,"title":"Child","parent":{"number":100},"subIssues":{"nodes":[]}},
        {"number":101,"title":"Solo","parent":null,"subIssues":{"nodes":[]}}
    ]"#)
    .unwrap();
    let nodes = v.items().unwrap();
    assert_eq!(
        items(&issue_list(nodes, true, NodeFilter::TopLevel)),
        vec![item("100", "Epic", true, None), item("101", "Solo", false, None)]
    );
    let closed_only = parse_json(r#"[{"number":3,"title":"Leaf","subIssues":{"nodes":[{"state":"CLOSED"}]}}]"#).unwrap();
    assert_eq!(items(&issue_list(closed_only.items().unwrap(), true, NodeFilter::TopLevel)), vec![item("3", "Leaf", false, None)]);
    assert_eq!(issue_list(nodes, false, NodeFilter::All).len(), 3);
    assert!(issue_list(nodes, false, NodeFilter::All).iter().all(|x| !x.has_children));
}

#[test]
fn list_issues_v1_with_parent_lists_open_children_only() {
    let v = parse_json(r#"[
        {"number":110,"title":"Open child","state":"OPEN","repository":{"nameWithOwner":"owner/repo"},"subIssues":{"nodes":[{"state":"OPEN"}]}},
        {"number":9,"title":"Cross-repo child","state":"OPEN","repository":{"nameWithOwner":"owner/lib"},"subIssues":{"nodes":[]}},
        {"number":111,"title":"Done child","state":"CLOSED","repository":{"nameWithOwner":"owner/repo"},"subIssues":{"nodes":[]}}
    ]"#)
    .unwrap();
    assert_eq!(
        items(&issue_list(v.items().unwrap(), true, NodeFilter::Open)),
        vec![item("110", "Open child", true, Some("owner/repo")), item("9", "Cross-repo child", false, Some("owner/lib"))]
    );
}

#[test]
fn list_group_issues_maps_project_items_across_repos() {
    let page = parse_json(r#"{
        "pageInfo":{"endCursor":"pi==","hasNextPage":true},
        "nodes":[
            {"content":{"number":42,"title":"App task","state":"OPEN","repository":{"nameWithOwner":"owner/repo"},"subIssues":{"nodes":[{"state":"OPEN"}]}}},
            {"content":{"number":9,"title":"Lib task","state":"OPEN","repository":{"nameWithOwner":"owner/lib"},"subIssues":{"nodes":[]}}},
            {"content":{"number":1,"title":"Done","state":"CLOSED","repository":{"nameWithOwner":"owner/repo"},"subIssues":{"nodes":[]}}},
            {"content":{}}
        ]}"#)
    .unwrap();
    assert_eq!(
        items(&project_items(page.array_at("nodes").unwrap())),
        vec![item("42", "App task", true, Some("owner/repo")), item("9", "Lib task", false, Some("owner/lib"))]
    );
    assert_eq!(next_page(&page).as_deref(), Some("pi=="));
}

#[test]
fn list_issues_v0_returns_flat_list() {
    let v = parse_json(r#"[
        {"number":100,"title":"Epic","parent":null,"subIssues":{"nodes":[{"state":"OPEN"},{"state":"CLOSED"}]}},
        {"number":110,"title":"Child","parent":{"number":100},"subIssues":{"nodes":[]}}
    ]"#)
    .unwrap();
    assert_eq!(
        items(&issue_list(v.items().unwrap(), false, NodeFilter::All)),
        vec![item("100", "Epic", false, None), item("110", "Child", false, None)]
    );
}

#[test]
fn repo_groups_filter_closed_and_respect_owner_env() {
    let v = parse_json(r#"[{"number":1,"title":"Alpha","closed":false},{"number":2,"title":"Done","closed":true}]"#).unwrap();
    assert_eq!(open_projects(v.items().unwrap()), vec![("1".to_string(), "Alpha".to_string())]);
    assert_eq!(owner(Some("myorg"), Err("not asked".to_string())).as_deref(), Ok("myorg"));
}

#[test]
fn list_issues_v2_pages_with_cursor() {
    let page = parse_json(r#"{"pageInfo":{"endCursor":"abc123==","hasNextPage":true},"nodes":[{"number":100,"title":"Newest","parent":null,"subIssues":{"nodes":[]}}]}"#).unwrap();
    assert_eq!(
        items(&issue_list(page.array_at("nodes").unwrap(), true, NodeFilter::TopLevel)),
        vec![item("100", "Newest", false, None)]
    );
    assert_eq!(next_page(&page).as_deref(), Some("abc123=="));
}

#[test]
fn list_issues_v2_last_page_has_no_cursor() {
    let page = parse_json(r#"{"pageInfo":{"endCursor":"zzz","hasNextPage":false},"nodes":[]}"#).unwrap();
    assert!(issue_list(page.array_at("nodes").unwrap(), true, NodeFilter::TopLevel).is_empty());
    assert_eq!(next_page(&page), None);
    assert_eq!(next_page(&parse_json("{}").unwrap()), None);
}

#[test]
fn group_repositories_are_named_with_their_owner() {
    let v = parse_json(r#"[{"nameWithOwner":"owner/repo"},{"name":"x"},{"nameWithOwner":"owner/tool"}]"#).unwrap();
    assert_eq!(repo_names(v.items().unwrap()), vec!["owner/repo", "owner/tool"]);
}

#[test]
fn contract_issue_maps_state_to_neutral_vocabulary() {
    let closed = parse_json(r#"{"title":"T","state":"CLOSED"}"#).unwrap();
    assert_eq!(issue_answer(&closed, "unexpected gh output: "), Ok(("T".to_string(), "closed".to_string())));
    let open = parse_json(r#"{"title":"T","state":"OPEN"}"#).unwrap();
    assert_eq!(issue_answer(&open, "unexpected gh output: "), Ok(("T".to_string(), "open".to_string())));
    let no_state = parse_json(r#"{"title":"T"}"#).unwrap();
    assert_eq!(issue_answer(&no_state, "unexpected API response: ").err().as_deref(), Some("unexpected API response: missing state"));
}

#[test]
fn graphql_errors_fail_without_partial_json() {
    let body = parse_json(r#"{"data":null,"errors":[{"message":"bad query"},{"type":"x"},{"message":"no access"}]}"#).unwrap();
    assert_eq!(graphql_error(&body).as_deref(), Some("GitHub API errors: bad query / no access"));
    let ok = parse_json(r#"{"data":{},"errors":[]}"#).unwrap();
    assert_eq!(graphql_error(&ok), None);
}

#[test]
fn owner_env_override_skips_self_resolution() {
    assert_eq!(owner(Some("acme"), Err("unused".to_string())).as_deref(), Ok("acme"));
    assert_eq!(owner(Some(""), Ok("me\n".to_string())).as_deref(), Ok("me"));
    assert_eq!(owner(None, Ok("  \n".to_string())).err().as_deref(), Some("failed to resolve GitHub user"));
}

#[test]
fn contract_unknown_verb_fails_with_usage() {
    let gh = verb(&args(&["list-issues-v1"]), Plugin::Gh).err().unwrap();
    assert!(gh.starts_with("Usage:"), "{gh}");
    assert_eq!(gh, usage(Plugin::Gh));
    let api = verb(&args(&["list-issues-v3"]), Plugin::Api).err().unwrap();
    assert!(api.starts_with("Usage:"), "{api}");
    assert_eq!(verb(&[], Plugin::Api).err(), Some(usage(Plugin::Api)));
}

#[test]
fn verbs_read_their_flags() {
    match verb(&args(&["list-issues-v2", "--repo", "owner/repo", "--cursor", "prev=="]), Plugin::Api).unwrap() {
        Verb::Issues(q, repo, parent, cursor) => {
            assert_eq!(q, IssueQuery::V2);
            assert_eq!((repo.as_str(), parent, cursor.as_deref()), ("owner/repo", None, Some("prev==")));
        }
        _ => panic!("list-issues-v2 expected"),
    }
    match verb(&args(&["list-issues-v1", "--repo", "owner/repo", "--parent", "100", "--cursor", "x"]), Plugin::Api).unwrap() {
        Verb::Issues(q, _, parent, cursor) => {
            assert_eq!(q, IssueQuery::V1);
            assert_eq!((parent.as_deref(), cursor), (Some("100"), None));
        }
        _ => panic!("list-issues-v1 expected"),
    }
    assert!(matches!(verb(&args(&["list-group-issues-v0", "--group", "5"]), Plugin::Api), Ok(Verb::GroupIssues(..))));
    assert!(verb(&args(&["list-group-issues-v0", "--group", "5"]), Plugin::Gh).is_err());
    assert_eq!(verb(&args(&["issue-v0", "--repo", "owner/repo"]), Plugin::Gh).err().as_deref(), Some("--id required"));
    assert!(matches!(verb(&args(&["info-v0"]), Plugin::Gh), Ok(Verb::Info)));
}

#[test]
fn info_reports_ready_and_hierarchical_protocol() {
    assert_eq!(scope_diagnosis(Some("read:project, repo")), None);
    let verbs = protocol(Plugin::Api);
    assert!(verbs.iter().any(|v| v == "list-issues-v1"));
    assert!(verbs.iter().any(|v| v == "info-v0"));
    assert!(!protocol(Plugin::Gh).iter().any(|v| v == "list-issues-v1"));
}

#[test]
fn info_reports_unready_when_gh_fails() {
    let (ready, diagnosis) = gh_info(Err("gh api failed: not logged in".to_string()));
    assert!(!ready);
    assert!(diagnosis.is_some());
}

#[test]
fn project_repos_returns_ns_repo_array() {
    assert!(matches!(verb(&args(&["repo-group-repos-v0", "--group", "5"]), Plugin::Gh), Ok(Verb::GroupRepos(g)) if g == "5"));
    assert_eq!(numeric("5", "group"), Ok(5));
    assert_eq!(nonempty_lines_of(Some("owner/repo\nowner/tool\n")), vec!["owner/repo", "owner/tool"]);
}

#[test]
fn project_repos_rejects_non_numeric_project() {
    assert_eq!(numeric("abc", "group").err().as_deref(), Some("Invalid group: abc (GitHub の id は番号)"));
}

#[test]
fn list_issues_maps_numbers_and_preserves_tricky_titles() {
    let v = parse_json(r#"[{"number":42,"title":"Fix\tbug"},{"number":7,"title":"Path C:\\tmp"}]"#).unwrap();
    assert_eq!(
        items(&issue_list(v.items().unwrap(), false, NodeFilter::All)),
        vec![item("42", "Fix\tbug", false, None), item("7", "Path C:\\tmp", false, None)]
    );
}

#[test]
fn token_failure_fails_queries_and_reports_unready_info() {
    let failed = token(false, "", "not logged in\n").err().unwrap();
    assert_eq!(failed, "gh auth token failed: not logged in (run: gh auth login)");
    let (ready, diagnosis) = api_info(Err(failed));
    assert!(!ready);
    assert!(diagnosis.unwrap().contains("gh auth login"));
    assert_eq!(token(true, "  \n", "").err().as_deref(), Some("gh auth token returned an empty token (run: gh auth login)"));
    assert_eq!(token(true, "ghs_test_token\n", "").as_deref(), Ok("ghs_test_token"));
}

#[test]
fn contract_info_reports_missing_read_project_scope_with_fix() {
    let (ready, diagnosis) = api_info(Ok(Some("gist, repo".to_string())));
    assert!(!ready);
    assert!(diagnosis.unwrap().contains("read:project"));
    assert_eq!(api_info(Ok(None)), (true, None));
    assert_eq!(api_info(Ok(Some("read:project, repo".to_string()))), (true, None));
}

#[test]
fn gh_failure_is_nonzero_without_partial_json() {
    assert_eq!(
        gh_answer("issue", false, "partial".to_string(), "  HTTP 401: Bad credentials\n").err().as_deref(),
        Some("gh issue failed: HTTP 401: Bad credentials")
    );
    assert_eq!(gh_answer("issue", true, "[]".to_string(), "warning").as_deref(), Ok("[]"));
}

#[test]
fn api_url_defaults_to_github() {
    assert_eq!(api_url(None), "https://api.github.com");
    assert_eq!(api_url(Some("")), "https://api.github.com");
    assert_eq!(api_url(Some("http://127.0.0.1:1")), "http://127.0.0.1:1");
}
