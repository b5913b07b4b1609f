//! The tracker role: project and issue queries answered by a plugin, read
//! only. A plugin is an executable that takes a v0 verb and prints one JSON
//! document (the tracker plugin contract); which plugin is asked is decided
//! by the settings and resolved by the caller.
//!
//! What a plugin prints is untrusted input: ids flow into branch names,
//! session names and container labels, so their form is checked and items
//! that break it are dropped. The library builds the arguments of each
//! query and reads its output; running the plugin is the caller's.
use vstd::prelude::*;
use crate::text::{chars_of, string_of};
pub use crate::text::string_views;
use crate::json::{array_field, array_items, bool_field, field, parse_json, json_of_text, str_field, Json};
use crate::domains::{ns_repo_text, parse_repo_ref, valid_cursor, valid_group, valid_issue, RepoRef};
use crate::settings::opt_text;

verus! {

/// What a plugin's output reads as: its JSON document, none when it failed
/// or printed no JSON.
pub open spec fn plugin_json(output: Option<Seq<char>>) -> Option<Json> {
    match output {
        Some(out) => json_of_text(out),
        None => None,
    }
}

fn read_output(output: Option<&str>) -> (r: Option<Json>)
    ensures
        r == plugin_json(opt_text(output)),
{
    match output {
        Some(out) => parse_json(out),
        None => None,
    }
}

/// An owned copy of a literal word.
fn word(s: &str) -> (r: String)
    ensures
        r@ == s@,
{
    s.to_owned()
}

// ---------------------------------------------------------------------------
// Repo-groups
// ---------------------------------------------------------------------------

/// A repo-group item is kept when its id is a valid group id and it has a
/// string title.
pub open spec fn group_item_ok(item: Json) -> bool {
    &&& str_field(item, "id"@) matches Some(id) && valid_group(id)
    &&& str_field(item, "title"@) is Some
}

/// The kept items among the first `n`.
pub open spec fn kept_groups(items: Seq<Json>, n: nat) -> Seq<Json>
    decreases n,
{
    if n == 0 || n > items.len() {
        Seq::empty()
    } else {
        let before = kept_groups(items, (n - 1) as nat);
        if group_item_ok(items[n - 1]) {
            before.push(items[n - 1])
        } else {
            before
        }
    }
}

/// The open repo-groups in an answer to `list-repo-groups-v0`.
pub open spec fn repo_groups_of(output: Option<Seq<char>>) -> Seq<Json> {
    match plugin_json(output) {
        Some(v) => match array_items(v) {
            Some(items) => kept_groups(items, items.len()),
            None => Seq::empty(),
        },
        None => Seq::empty(),
    }
}

/// The arguments of the repo-group query.
pub fn repo_groups_args() -> (r: Vec<String>)
    ensures
        string_views(r@) == seq!["list-repo-groups-v0"@],
{
    let r = vec![word("list-repo-groups-v0")];
    assert(string_views(r@) =~= seq!["list-repo-groups-v0"@]);
    r
}

/// The open repo-groups (`{id, title}` items) a plugin answered; nothing
/// when it failed.
pub fn repo_groups(output: Option<&str>) -> (r: Vec<Json>)
    ensures
        r@ == repo_groups_of(opt_text(output)),
{
    let mut out: Vec<Json> = Vec::new();
    let mut items = match read_output(output) {
        Some(Json::Array(items)) => items,
        _ => return out,
    };
    let ghost all = items@;
    let ghost n = all.len();
    while items.len() > 0
        invariant
            n == all.len(),
            items@.len() <= n,
            items@ == all.skip(n - items@.len()),
            out@ == kept_groups(all, (n - items@.len()) as nat),
        decreases items.len(),
    {
        let ghost done = n - items@.len();
        let item = items.remove(0);
        assert(item == all[done]);
        assert(items@ =~= all.skip(n - items@.len()));
        let ok = match item.str_at("id") {
            Some(id) => crate::domains::is_valid_group(id) && item.str_at("title").is_some(),
            None => false,
        };
        if ok {
            out.push(item);
        }
    }
    out
}

/// The repositories among the first `n` items: strings that read as
/// `<ns>/<repo>`.
pub open spec fn kept_repos(items: Seq<Json>, n: nat) -> Seq<Seq<char>>
    decreases n,
{
    if n == 0 || n > items.len() {
        Seq::empty()
    } else {
        let before = kept_repos(items, (n - 1) as nat);
        match items[n - 1] {
            Json::Str(s) => if parse_repo_ref(s@) is Some {
                before.push(s@)
            } else {
                before
            },
            _ => before,
        }
    }
}

/// The repositories of a repo-group in an answer to `repo-group-repos-v0`.
pub open spec fn group_repos_of(output: Option<Seq<char>>) -> Seq<Seq<char>> {
    match plugin_json(output) {
        Some(v) => match array_items(v) {
            Some(items) => kept_repos(items, items.len()),
            None => Seq::empty(),
        },
        None => Seq::empty(),
    }
}

/// The arguments of the repo-group members query.
pub fn repo_group_repos_args(group: &str) -> (r: Vec<String>)
    ensures
        string_views(r@) == seq!["repo-group-repos-v0"@, "--group"@, group@],
{
    let r = vec![word("repo-group-repos-v0"), word("--group"), word(group)];
    assert(string_views(r@) =~= seq!["repo-group-repos-v0"@, "--group"@, group@]);
    r
}

/// The `<ns>/<repo>` members of a repo-group a plugin answered; nothing
/// when it failed.
pub fn repo_group_repos(output: Option<&str>) -> (r: Vec<String>)
    ensures
        string_views(r@) == group_repos_of(opt_text(output)),
{
    let mut out: Vec<String> = Vec::new();
    assert(string_views(out@) =~= Seq::<Seq<char>>::empty());
    let doc = read_output(output);
    let items = match &doc {
        Some(v) => match v.items() {
            Some(items) => items,
            None => return out,
        },
        None => return out,
    };
    let mut i: usize = 0;
    while i < items.len()
        invariant
            i <= items@.len(),
            string_views(out@) == kept_repos(items@, i as nat),
        decreases items.len() - i,
    {
        let ghost before = string_views(out@);
        match &items[i] {
            Json::Str(s) => {
                if RepoRef::parse(s.as_str()).is_some() {
                    out.push(crate::text::copy_string(s));
                    assert(string_views(out@) =~= before.push(s@));
                }
            },
            _ => {},
        }
        i = i + 1;
    }
    out
}

// ---------------------------------------------------------------------------
// Issues
// ---------------------------------------------------------------------------

/// One open issue a plugin answered. `repo` is the issue's own repository
/// (absent: the one asked about; sub-issues may live in another one).
pub struct IssueItem {
    pub id: String,
    pub title: String,
    pub has_children: bool,
    pub repo: Option<String>,
}

/// What the library knows of an issue item.
pub struct IssueItemView {
    pub id: Seq<char>,
    pub title: Seq<char>,
    pub has_children: bool,
    pub repo: Option<Seq<char>>,
}

impl View for IssueItem {
    type V = IssueItemView;

    open spec fn view(&self) -> IssueItemView {
        IssueItemView {
            id: self.id@,
            title: self.title@,
            has_children: self.has_children,
            repo: match self.repo {
                Some(r) => Some(r@),
                None => None,
            },
        }
    }
}

/// The views of a list of issue items.
pub open spec fn item_views(v: Seq<IssueItem>) -> Seq<IssueItemView> {
    Seq::new(v.len(), |i: int| v[i]@)
}

/// An issue id a plugin may give: the id grammar, and never the workspace
/// id `main`.
pub open spec fn valid_issue_id(id: Seq<char>) -> bool {
    id != crate::domains::main_word() && valid_issue(id)
}

/// One item of an issue list read as an issue: a valid id, a string
/// title, and a `repo` that is absent, `null`, or a valid `<ns>/<repo>`;
/// `has_children` counts only for hierarchical answers.
pub open spec fn issue_item_of(item: Json, hierarchical: bool) -> Option<IssueItemView> {
    match str_field(item, "id"@) {
        None => None,
        Some(id) => if !valid_issue_id(id) {
            None
        } else {
            match str_field(item, "title"@) {
                None => None,
                Some(title) => {
                    let has_children = hierarchical && bool_field(item, "has_children"@) == Some(true);
                    match field(item, "repo"@) {
                        None => Some(IssueItemView { id, title, has_children, repo: None }),
                        Some(Json::Null) => Some(IssueItemView { id, title, has_children, repo: None }),
                        Some(Json::Str(r)) => match parse_repo_ref(r@) {
                            Some(rr) => Some(IssueItemView { id, title, has_children, repo: Some(ns_repo_text(rr)) }),
                            None => None,
                        },
                        _ => None,
                    }
                },
            }
        },
    }
}

/// The issues read from the first `n` items.
pub open spec fn issue_items_in(items: Seq<Json>, hierarchical: bool, n: nat) -> Seq<IssueItemView>
    decreases n,
{
    if n == 0 || n > items.len() {
        Seq::empty()
    } else {
        let before = issue_items_in(items, hierarchical, (n - 1) as nat);
        match issue_item_of(items[n - 1], hierarchical) {
            Some(x) => before.push(x),
            None => before,
        }
    }
}

fn is_valid_issue_id(id: &str) -> (b: bool)
    ensures
        b == valid_issue_id(id@),
{
    let cs = chars_of(id);
    let is_main = cs.len() == 4 && cs[0] == 'm' && cs[1] == 'a' && cs[2] == 'i' && cs[3] == 'n';
    assert(is_main == (id@ == crate::domains::main_word())) by {
        if id@ == crate::domains::main_word() {
            assert(id@.len() == 4);
        }
        if is_main {
            assert(id@ =~= crate::domains::main_word());
        }
    }
    !is_main && crate::domains::is_valid_issue(id)
}

/// Reads one item of an issue list.
pub fn issue_item(item: &Json, hierarchical: bool) -> (r: Option<IssueItem>)
    ensures
        match r {
            Some(x) => issue_item_of(*item, hierarchical) == Some(x@),
            None => issue_item_of(*item, hierarchical) is None,
        },
{
    let id = match item.str_at("id") {
        Some(id) => id,
        None => return None,
    };
    if !is_valid_issue_id(id) {
        return None;
    }
    let title = match item.str_at("title") {
        Some(t) => t,
        None => return None,
    };
    let has_children = hierarchical && item.bool_at("has_children") == Some(true);
    let repo = match item.get("repo") {
        None => None,
        Some(Json::Null) => None,
        Some(Json::Str(r)) => match RepoRef::parse(r.as_str()) {
            Some(rr) => Some(rr.ns_repo()),
            None => return None,
        },
        Some(_) => return None,
    };
    Some(IssueItem { id: word(id), title: word(title), has_children, repo })
}

/// Reads the items of an issue list, dropping those of a bad form.
pub fn issue_items(items: &[Json], hierarchical: bool) -> (r: Vec<IssueItem>)
    ensures
        item_views(r@) == issue_items_in(items@, hierarchical, items@.len()),
{
    let mut out: Vec<IssueItem> = Vec::new();
    let n = items.len();
    let mut i: usize = 0;
    assert(item_views(out@) =~= Seq::<IssueItemView>::empty());
    while i < n
        invariant
            i <= n,
            n == items@.len(),
            item_views(out@) == issue_items_in(items@, hierarchical, i as nat),
        decreases n - i,
    {
        let ghost before = item_views(out@);
        match issue_item(&items[i], hierarchical) {
            Some(x) => {
                out.push(x);
                assert(item_views(out@) =~= before.push(x@));
            },
            None => {},
        }
        i = i + 1;
    }
    out
}

/// The cursor of the next page: a `next_cursor` string of the cursor form
/// (it flows back into arguments; a bad one means no next page).
pub open spec fn next_cursor_text(page: Json) -> Option<Seq<char>> {
    match str_field(page, "next_cursor"@) {
        Some(c) => if valid_cursor(c) {
            Some(c)
        } else {
            None
        },
        None => None,
    }
}

/// The cursor of the next page of an answer.
pub fn next_cursor_of(page: &Json) -> (r: Option<String>)
    ensures
        match r {
            Some(c) => next_cursor_text(*page) == Some(c@),
            None => next_cursor_text(*page) is None,
        },
{
    match page.str_at("next_cursor") {
        Some(c) => if crate::domains::is_valid_cursor(c) {
            Some(word(c))
        } else {
            None
        },
        None => None,
    }
}

/// The verbs of the issue list, newest first: `list-issues-v2` pages,
/// `list-issues-v1` knows parents, `list-issues-v0` is flat.
#[derive(Clone, Copy, Debug, PartialEq, Eq, Structural)]
pub enum IssueQuery {
    V2,
    V1,
    V0,
}

/// The arguments of an issue list query. `--parent` and `--cursor` go only
/// to the verbs that know them.
pub open spec fn issues_args_text(
    query: IssueQuery,
    ns_repo: Seq<char>,
    parent: Option<Seq<char>>,
    cursor: Option<Seq<char>>,
) -> Seq<Seq<char>> {
    let parent_part = match parent {
        Some(p) => seq!["--parent"@, p],
        None => Seq::empty(),
    };
    let cursor_part = match cursor {
        Some(c) => seq!["--cursor"@, c],
        None => Seq::empty(),
    };
    match query {
        IssueQuery::V2 => seq!["list-issues-v2"@, "--repo"@, ns_repo] + parent_part + cursor_part,
        IssueQuery::V1 => seq!["list-issues-v1"@, "--repo"@, ns_repo] + parent_part,
        IssueQuery::V0 => seq!["list-issues-v0"@, "--repo"@, ns_repo],
    }
}

/// The arguments of an issue list query.
pub fn issues_args(query: IssueQuery, repo: &RepoRef, parent: Option<&str>, cursor: Option<&str>) -> (r: Vec<String>)
    ensures
        string_views(r@) == issues_args_text(query, ns_repo_text(repo@), opt_text(parent), opt_text(cursor)),
{
    let verb = match query {
        IssueQuery::V2 => word("list-issues-v2"),
        IssueQuery::V1 => word("list-issues-v1"),
        IssueQuery::V0 => word("list-issues-v0"),
    };
    let mut r = vec![verb, word("--repo"), repo.ns_repo()];
    let ghost base = string_views(r@);
    let ghost pp = match opt_text(parent) {
        Some(p) => seq!["--parent"@, p],
        None => Seq::<Seq<char>>::empty(),
    };
    let ghost cp = match opt_text(cursor) {
        Some(c) => seq!["--cursor"@, c],
        None => Seq::<Seq<char>>::empty(),
    };
    if query != IssueQuery::V0 {
        if let Some(p) = parent {
            r.push(word("--parent"));
            r.push(word(p));
        }
    }
    assert(query != IssueQuery::V0 ==> string_views(r@) =~= base + pp);
    if query == IssueQuery::V2 {
        if let Some(c) = cursor {
            r.push(word("--cursor"));
            r.push(word(c));
        }
        assert(string_views(r@) =~= base + pp + cp);
    }
    proof {
        if query == IssueQuery::V0 {
            assert(string_views(r@) =~= base);
        }
    }
    r
}

/// What to do after a query of the issue list: ask the next verb, or stop
/// with a page (items and the cursor of the next page).
pub enum IssuesStep {
    Ask(IssueQuery),
    Done(Vec<IssueItem>, Option<String>),
}

/// What the library knows of a step.
pub enum IssuesStepView {
    Ask(IssueQuery),
    Done(Seq<IssueItemView>, Option<Seq<char>>),
}

impl View for IssuesStep {
    type V = IssuesStepView;

    open spec fn view(&self) -> IssuesStepView {
        match self {
            IssuesStep::Ask(q) => IssuesStepView::Ask(*q),
            IssuesStep::Done(items, c) => IssuesStepView::Done(
                item_views(items@),
                match c {
                    Some(x) => Some(x@),
                    None => None,
                },
            ),
        }
    }
}

/// The step after the answer of `query`. v2 answers a page object with an
/// `issues` array; v1 and v0 answer an array. A failed v2 falls back to v1
/// unless a cursor was asked for (v1 has no pages); a failed v1 falls back
/// to v0 unless a parent was asked for (v0 has no hierarchy); a failed v0
/// is an empty page.
pub open spec fn issues_step_of(query: IssueQuery, output: Option<Seq<char>>, parent: bool, cursor: bool) -> IssuesStepView {
    let failed = match query {
        IssueQuery::V2 => if cursor {
            IssuesStepView::Done(Seq::empty(), None)
        } else {
            IssuesStepView::Ask(IssueQuery::V1)
        },
        IssueQuery::V1 => if parent {
            IssuesStepView::Done(Seq::empty(), None)
        } else {
            IssuesStepView::Ask(IssueQuery::V0)
        },
        IssueQuery::V0 => IssuesStepView::Done(Seq::empty(), None),
    };
    match plugin_json(output) {
        None => failed,
        Some(v) => match query {
            IssueQuery::V2 => match array_field(v, "issues"@) {
                Some(items) => IssuesStepView::Done(issue_items_in(items, true, items.len()), next_cursor_text(v)),
                None => failed,
            },
            _ => match array_items(v) {
                Some(items) => IssuesStepView::Done(issue_items_in(items, query == IssueQuery::V1, items.len()), None),
                None => failed,
            },
        },
    }
}

/// One step of the open-issues query: the answer of `query` (`None` when
/// the plugin failed, as an unknown verb does) decides the page or the
/// verb to fall back to. The first query is `IssueQuery::V2`.
pub fn open_issues(query: IssueQuery, output: Option<&str>, parent: bool, cursor: bool) -> (r: IssuesStep)
    ensures
        r@ == issues_step_of(query, opt_text(output), parent, cursor),
{
    let doc = read_output(output);
    match query {
        IssueQuery::V2 => {
            if let Some(page) = &doc {
                if let Some(items) = page.array_at("issues") {
                    let found = issue_items(items.as_slice(), true);
                    let next = next_cursor_of(page);
                    let r = IssuesStep::Done(found, next);
                    assert(array_field(*page, "issues"@)->0 == items@);
                    assert(r@ == IssuesStepView::Done(
                        issue_items_in(items@, true, items@.len()),
                        next_cursor_text(*page),
                    ));
                    return r;
                }
            }
            if cursor {
                empty_page()
            } else {
                IssuesStep::Ask(IssueQuery::V1)
            }
        },
        IssueQuery::V1 => {
            if let Some(v) = &doc {
                if let Some(items) = v.items() {
                    return IssuesStep::Done(issue_items(items.as_slice(), true), None);
                }
            }
            if parent {
                empty_page()
            } else {
                IssuesStep::Ask(IssueQuery::V0)
            }
        },
        IssueQuery::V0 => {
            if let Some(v) = &doc {
                if let Some(items) = v.items() {
                    return IssuesStep::Done(issue_items(items.as_slice(), false), None);
                }
            }
            empty_page()
        },
    }
}

fn empty_page() -> (r: IssuesStep)
    ensures
        r@ == IssuesStepView::Done(Seq::empty(), None),
{
    let v: Vec<IssueItem> = Vec::new();
    assert(item_views(v@) =~= Seq::<IssueItemView>::empty());
    IssuesStep::Done(v, None)
}

/// The arguments of the group issue query.
pub fn group_issues_args(group: &str, cursor: Option<&str>) -> (r: Vec<String>)
    ensures
        string_views(r@) == seq!["list-group-issues-v0"@, "--group"@, group@] + match opt_text(cursor) {
            Some(c) => seq!["--cursor"@, c],
            None => Seq::<Seq<char>>::empty(),
        },
{
    let mut r = vec![word("list-group-issues-v0"), word("--group"), word(group)];
    if let Some(c) = cursor {
        r.push(word("--cursor"));
        r.push(word(c));
    }
    assert(string_views(r@) =~= seq!["list-group-issues-v0"@, "--group"@, group@] + match opt_text(cursor) {
        Some(c) => seq!["--cursor"@, c],
        None => Seq::<Seq<char>>::empty(),
    });
    r
}

/// The issues among the first `n` that name their repository.
pub open spec fn with_repo(items: Seq<IssueItemView>, n: nat) -> Seq<IssueItemView>
    decreases n,
{
    if n == 0 || n > items.len() {
        Seq::empty()
    } else {
        let before = with_repo(items, (n - 1) as nat);
        if items[n - 1].repo is Some {
            before.push(items[n - 1])
        } else {
            before
        }
    }
}

/// The page of a group issue query: the issues that name their repository
/// and the next cursor; an empty page when the plugin failed or does not
/// know the verb.
pub open spec fn group_issues_of(output: Option<Seq<char>>) -> (Seq<IssueItemView>, Option<Seq<char>>) {
    match plugin_json(output) {
        Some(page) => group_page_of(page),
        None => (Seq::empty(), None),
    }
}

/// A page of group issues as the plugin answered it: the issues that name
/// their repository and the next cursor; an empty page when it holds no
/// `issues` array.
pub open spec fn group_page_of(page: Json) -> (Seq<IssueItemView>, Option<Seq<char>>) {
    match array_field(page, "issues"@) {
        Some(items) => {
            let all = issue_items_in(items, true, items.len());
            (with_repo(all, all.len()), next_cursor_text(page))
        },
        None => (Seq::empty(), None),
    }
}

/// The open issues of a repo-group, over repositories (one page). Items
/// must name their repository; those without or of a bad form are
/// dropped.
pub fn group_issues(output: Option<&str>) -> (r: (Vec<IssueItem>, Option<String>))
    ensures
        item_views(r.0@) == group_issues_of(opt_text(output)).0,
        match r.1 {
            Some(c) => group_issues_of(opt_text(output)).1 == Some(c@),
            None => group_issues_of(opt_text(output)).1 is None,
        },
{
    match read_output(output) {
        Some(page) => group_page(&page),
        None => (Vec::new(), None),
    }
}

/// What a page of group issues holds, from the plugin's parsed answer.
pub fn group_page(page: &Json) -> (r: (Vec<IssueItem>, Option<String>))
    ensures
        item_views(r.0@) == group_page_of(*page).0,
        match r.1 {
            Some(c) => group_page_of(*page).1 == Some(c@),
            None => group_page_of(*page).1 is None,
        },
{
    let items = match page.array_at("issues") {
        Some(items) => items,
        None => return (Vec::new(), None),
    };
    let mut all = issue_items(items.as_slice(), true);
    let ghost av = item_views(all@);
    let ghost n = av.len();
    let mut out: Vec<IssueItem> = Vec::new();
    assert(item_views(out@) =~= with_repo(av, 0));
    while all.len() > 0
        invariant
            n == av.len(),
            all@.len() <= n,
            item_views(all@) == av.skip(n - all@.len()),
            item_views(out@) == with_repo(av, (n - all@.len()) as nat),
        decreases all.len(),
    {
        let ghost done = n - all@.len();
        let ghost old_all = all@;
        assert(item_views(old_all)[0] == old_all[0]@);
        let x = all.remove(0);
        assert(x@ == av[done]);
        assert(all@ =~= old_all.skip(1));
        assert forall|k: int| 0 <= k < all@.len() implies #[trigger] item_views(all@)[k] == av.skip(n - all@.len())[k] by {
            assert(item_views(all@)[k] == all@[k]@);
            assert(all@[k] == old_all[k + 1]);
            assert(item_views(old_all)[k + 1] == old_all[k + 1]@);
        }
        assert(item_views(all@) =~= av.skip(n - all@.len()));
        let ghost before = item_views(out@);
        if x.repo.is_some() {
            out.push(x);
            assert(item_views(out@) =~= before.push(x@));
        }
    }
    (out, next_cursor_of(page))
}

/// The arguments of the single issue query.
pub fn issue_args(repo: &RepoRef, id: &str) -> (r: Vec<String>)
    ensures
        string_views(r@) == seq!["issue-v0"@, "--repo"@, ns_repo_text(repo@), "--id"@, id@],
{
    let r = vec![word("issue-v0"), word("--repo"), repo.ns_repo(), word("--id"), word(id)];
    assert(string_views(r@) =~= seq!["issue-v0"@, "--repo"@, ns_repo_text(repo@), "--id"@, id@]);
    r
}

/// A single issue: its title and whether it is closed (`state` is `closed`
/// or `open`); none when the answer is missing or of another form.
pub open spec fn issue_of(output: Option<Seq<char>>) -> Option<(Seq<char>, bool)> {
    match plugin_json(output) {
        Some(v) => issue_answer_of(v),
        None => None,
    }
}

/// A single issue as the plugin answered it: its `title`, and `state`
/// `closed` or `open`; none for any other form.
pub open spec fn issue_answer_of(v: Json) -> Option<(Seq<char>, bool)> {
    match (str_field(v, "title"@), str_field(v, "state"@)) {
        (Some(title), Some(state)) => if state == "closed"@ {
            Some((title, true))
        } else if state == "open"@ {
            Some((title, false))
        } else {
            None
        },
        _ => None,
    }
}

/// The title of a single issue and whether it is closed.
pub fn issue(output: Option<&str>) -> (r: Option<(String, bool)>)
    ensures
        match r {
            Some((t, c)) => issue_of(opt_text(output)) == Some((t@, c)),
            None => issue_of(opt_text(output)) is None,
        },
{
    match read_output(output) {
        Some(v) => issue_answer(&v),
        None => None,
    }
}

/// The title of a single issue and whether it is closed, from the
/// plugin's parsed answer.
pub fn issue_answer(v: &Json) -> (r: Option<(String, bool)>)
    ensures
        match r {
            Some((t, c)) => issue_answer_of(*v) == Some((t@, c)),
            None => issue_answer_of(*v) is None,
        },
{
    let title = match v.str_at("title") {
        Some(t) => t,
        None => return None,
    };
    let state = match v.str_at("state") {
        Some(s) => s,
        None => return None,
    };
    if crate::text::str_eq(state, "closed") {
        Some((word(title), true))
    } else if crate::text::str_eq(state, "open") {
        Some((word(title), false))
    } else {
        None
    }
}

/// The strings among the first `n` items.
pub open spec fn strings_in(items: Seq<Json>, n: nat) -> Seq<Seq<char>>
    decreases n,
{
    if n == 0 || n > items.len() {
        Seq::empty()
    } else {
        let before = strings_in(items, (n - 1) as nat);
        match items[n - 1] {
            Json::Str(s) => before.push(s@),
            _ => before,
        }
    }
}

/// A plugin's self check (`info-v0`), with only the fields of the right
/// form: `ready` (required), `diagnosis`, and the verbs it speaks.
pub open spec fn info_of(output: Option<Seq<char>>) -> Option<(bool, Option<Seq<char>>, Option<Seq<Seq<char>>>)> {
    match plugin_json(output) {
        Some(v) => info_answer_of(v),
        None => None,
    }
}

/// A self check as the plugin answered it: `ready` (required), then
/// `diagnosis` and the `protocol` verbs where they have the right form.
pub open spec fn info_answer_of(v: Json) -> Option<(bool, Option<Seq<char>>, Option<Seq<Seq<char>>>)> {
    match bool_field(v, "ready"@) {
        Some(ready) => Some(
            (
                ready,
                str_field(v, "diagnosis"@),
                match array_field(v, "protocol"@) {
                    Some(items) => Some(strings_in(items, items.len())),
                    None => None,
                },
            ),
        ),
        None => None,
    }
}

/// The plugin's self check; none when it does not answer `info-v0` or
/// answers in another form.
pub fn info(output: Option<&str>) -> (r: Option<(bool, Option<String>, Option<Vec<String>>)>)
    ensures
        match r {
            Some((ready, diagnosis, protocol)) => info_of(opt_text(output)) == Some((
                ready,
                match diagnosis {
                    Some(d) => Some(d@),
                    None => None,
                },
                match protocol {
                    Some(p) => Some(string_views(p@)),
                    None => None,
                },
            )),
            None => info_of(opt_text(output)) is None,
        },
{
    match read_output(output) {
        Some(v) => info_answer(&v),
        None => None,
    }
}

/// The plugin's self check, from its parsed answer.
pub fn info_answer(v: &Json) -> (r: Option<(bool, Option<String>, Option<Vec<String>>)>)
    ensures
        match r {
            Some((ready, diagnosis, protocol)) => info_answer_of(*v) == Some((
                ready,
                match diagnosis {
                    Some(d) => Some(d@),
                    None => None,
                },
                match protocol {
                    Some(p) => Some(string_views(p@)),
                    None => None,
                },
            )),
            None => info_answer_of(*v) is None,
        },
{
    let ready = match v.bool_at("ready") {
        Some(b) => b,
        None => return None,
    };
    let diagnosis = match v.str_at("diagnosis") {
        Some(d) => Some(word(d)),
        None => None,
    };
    let protocol = match v.array_at("protocol") {
        Some(items) => {
            let mut out: Vec<String> = Vec::new();
            let mut i: usize = 0;
            assert(string_views(out@) =~= Seq::<Seq<char>>::empty());
            while i < items.len()
                invariant
                    i <= items@.len(),
                    string_views(out@) == strings_in(items@, i as nat),
                decreases items.len() - i,
            {
                let ghost before = string_views(out@);
                match &items[i] {
                    Json::Str(s) => {
                        out.push(crate::text::copy_string(s));
                        assert(string_views(out@) =~= before.push(s@));
                    },
                    _ => {},
                }
                i = i + 1;
            }
            Some(out)
        },
        None => None,
    };
    Some((ready, diagnosis, protocol))
}


// ---------------------------------------------------------------------------
// Laws
// ---------------------------------------------------------------------------

/// What a plugin answers is untrusted: every issue the library keeps has an
/// id of the issue grammar that is not `main`, a repository (if any) that
/// reads as `<ns>/<repo>` and is its own external form, and children only
/// in hierarchical answers.
pub proof fn law_kept_issues_are_well_formed(items: Seq<Json>, hierarchical: bool, n: nat)
    ensures
        forall|k: int| 0 <= k < issue_items_in(items, hierarchical, n).len() ==> {
            let x = #[trigger] issue_items_in(items, hierarchical, n)[k];
            &&& valid_issue_id(x.id)
            &&& (x.repo matches Some(r) ==> parse_repo_ref(r) == Some(
                parse_repo_ref(r)->0,
            ) && ns_repo_text(parse_repo_ref(r)->0) == r)
            &&& (!hierarchical ==> !x.has_children)
        },
    decreases n,
{
    if n > 0 && n <= items.len() {
        law_kept_issues_are_well_formed(items, hierarchical, (n - 1) as nat);
        let before = issue_items_in(items, hierarchical, (n - 1) as nat);
        match issue_item_of(items[n - 1], hierarchical) {
            Some(x) => {
                if let Some(r) = x.repo {
                    let rr = parse_repo_ref(field(items[n - 1], "repo"@)->0->Str_0@)->0;
                    assert(r == ns_repo_text(rr));
                    crate::domains::law_ns_repo_reads_back(rr);
                }
                assert forall|k: int| 0 <= k < issue_items_in(items, hierarchical, n).len() implies {
                    let y = #[trigger] issue_items_in(items, hierarchical, n)[k];
                    &&& valid_issue_id(y.id)
                    &&& (y.repo matches Some(r) ==> parse_repo_ref(r) == Some(
                        parse_repo_ref(r)->0,
                    ) && ns_repo_text(parse_repo_ref(r)->0) == r)
                    &&& (!hierarchical ==> !y.has_children)
                } by {
                    if k < before.len() {
                        assert(issue_items_in(items, hierarchical, n)[k] == before[k]);
                    }
                }
            },
            None => {},
        }
    }
}

/// The cursor handed back to a plugin always has the cursor form.
pub proof fn law_next_cursor_is_well_formed(page: Json)
    ensures
        next_cursor_text(page) matches Some(c) ==> valid_cursor(c),
{
}

} // verus!
