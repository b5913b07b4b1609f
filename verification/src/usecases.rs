//! The use cases of the JSON API that read the machine: listing
//! repositories, repo-groups, issues and Workspaces, and the composed views
//! (`active`, orphaned worktrees, `active_count`). Each list is made here
//! from the facts the caller gathered (tool answers, tracker answers), as
//! rows of the library's own types; the caller prints the rows. The use
//! cases that change the machine, and the order of their roles, stand in
//! `workflow`.
use vstd::prelude::*;
use crate::text::{chars_of, string_of};
use crate::json::Json;
use crate::domains::{
    herdr_session_text, ns_repo_text, parse_repo_ref, workspace_path_text, Paths, RepoEntry,
    RepoEntryView, RepoRef, WorkspaceId,
};
use crate::settings::{
    default_manager_text, manager_name, message, opt_text, opt_string, Managers, SessionManager,
    Tracker, TrackerView, Trackers, default_of, all_of, tracker_refs,
};
use crate::tracker::{
    group_repos_of, info_of, issue_of, repo_groups_of, string_views, IssueItem, IssueItemView,
};
use crate::repostore::entry_views;
use crate::devcontainer::{outcome_label, Outcome};

verus! {

// ---------------------------------------------------------------------------
// Rows
// ---------------------------------------------------------------------------

/// One row of an issue list.
pub struct IssueRow {
    pub id: String,
    pub title: String,
    pub repo: String,
    pub active: bool,
    pub closed: bool,
    pub devcontainer: String,
    pub has_children: bool,
}

/// What the library knows of an issue row.
pub struct IssueRowView {
    pub id: Seq<char>,
    pub title: Seq<char>,
    pub repo: Seq<char>,
    pub active: bool,
    pub closed: bool,
    pub devcontainer: Seq<char>,
    pub has_children: bool,
}

impl View for IssueRow {
    type V = IssueRowView;

    open spec fn view(&self) -> IssueRowView {
        IssueRowView {
            id: self.id@,
            title: self.title@,
            repo: self.repo@,
            active: self.active,
            closed: self.closed,
            devcontainer: self.devcontainer@,
            has_children: self.has_children,
        }
    }
}

fn owned(s: &str) -> (r: String)
    ensures
        r@ == s@,
{
    s.to_owned()
}

// ---------------------------------------------------------------------------
// list-repo-groups
// ---------------------------------------------------------------------------

/// The trackers to ask for repo-groups: all of them, the default first.
/// With no tracker configured this is an error of the settings (the
/// interactive flow starts here), not an empty list.
pub open spec fn group_trackers_text(v: crate::settings::TrackersView) -> Result<Seq<TrackerView>, Seq<char>> {
    match default_of(v) {
        Err(e) => Err(e),
        Ok(_) => Ok(all_of(v)),
    }
}

/// The trackers `list-repo-groups` asks, in the order of the answer.
pub fn list_repo_groups(trackers: &Trackers) -> (r: Result<Vec<&Tracker>, String>)
    ensures
        match r {
            Ok(ts) => group_trackers_text(trackers@) == Ok::<Seq<TrackerView>, Seq<char>>(tracker_refs(ts@)),
            Err(e) => group_trackers_text(trackers@) == Err::<Seq<TrackerView>, Seq<char>>(e@),
        },
{
    match trackers.default_tracker() {
        Err(e) => Err(e),
        Ok(_) => Ok(trackers.all()),
    }
}

/// One repo-group of the answer: the item the tracker gave and the
/// tracker's instance name (added as `tracker`).
pub struct GroupRow {
    pub group: Json,
    pub tracker: String,
}

/// The repo-groups of one tracker, each tagged with its name; a tracker
/// that fails only misses its groups.
pub fn tracker_group_rows(tracker: &Tracker, output: Option<&str>) -> (r: Vec<GroupRow>)
    ensures
        r@.len() == repo_groups_of(opt_text(output)).len(),
        forall|i: int| 0 <= i < r@.len() ==> #[trigger] r@[i].group == repo_groups_of(opt_text(output))[i]
            && r@[i].tracker@ == tracker@.name,
{
    let mut groups = crate::tracker::repo_groups(output);
    let ghost gs = groups@;
    let mut out: Vec<GroupRow> = Vec::new();
    while groups.len() > 0
        invariant
            groups@.len() <= gs.len(),
            groups@ == gs.skip(gs.len() - groups@.len()),
            out@.len() == gs.len() - groups@.len(),
            forall|i: int| 0 <= i < out@.len() ==> #[trigger] out@[i].group == gs[i]
                && out@[i].tracker@ == tracker@.name,
        decreases groups.len(),
    {
        let ghost done = gs.len() - groups@.len();
        let g = groups.remove(0);
        assert(g == gs[done]);
        assert(groups@ =~= gs.skip(gs.len() - groups@.len()));
        out.push(GroupRow { group: g, tracker: owned(tracker.name()) });
    }
    out
}

// ---------------------------------------------------------------------------
// list-group-issues
// ---------------------------------------------------------------------------

/// A row of a group issue list: the item in its own repository, with the
/// session and container state found there; items whose repository does
/// not read as `<ns>/<repo>` give none.
pub open spec fn group_row_text(item: IssueItemView, active: bool, dc: Seq<char>) -> Option<IssueRowView> {
    match item.repo {
        Some(r) => if parse_repo_ref(r) is Some {
            Some(
                IssueRowView {
                    id: item.id,
                    title: item.title,
                    repo: r,
                    active,
                    closed: false,
                    devcontainer: dc,
                    has_children: item.has_children,
                },
            )
        } else {
            None
        },
        None => None,
    }
}

/// The repository of a group issue, whose session and containers decide
/// its row; none when it names none of the right form.
pub fn group_item_repo(item: &IssueItem) -> (r: Option<RepoRef>)
    ensures
        match r {
            Some(x) => item@.repo matches Some(t) && parse_repo_ref(t) == Some(x@),
            None => !(item@.repo matches Some(t) && parse_repo_ref(t) is Some),
        },
{
    match &item.repo {
        Some(t) => RepoRef::parse(t.as_str()),
        None => None,
    }
}

/// The row of a group issue, given whether its Workspace has a session and
/// the state of its containers (both looked up in the item's repository).
pub fn group_issue_row(item: &IssueItem, active: bool, dc: &str) -> (r: Option<IssueRow>)
    ensures
        match r {
            Some(row) => group_row_text(item@, active, dc@) == Some(row@),
            None => group_row_text(item@, active, dc@) is None,
        },
{
    match &item.repo {
        Some(t) => if RepoRef::parse(t.as_str()).is_some() {
            Some(
                IssueRow {
                    id: crate::text::copy_string(&item.id),
                    title: crate::text::copy_string(&item.title),
                    repo: crate::text::copy_string(t),
                    active,
                    closed: false,
                    devcontainer: owned(dc),
                    has_children: item.has_children,
                },
            )
        } else {
            None
        },
        None => None,
    }
}

// ---------------------------------------------------------------------------
// list-issues
// ---------------------------------------------------------------------------

/// The repository an item's row is looked at in, when it is another one
/// than the repository asked about (a cross-repository child); none when
/// it is the same or names none.
pub open spec fn foreign_repo_text(item: IssueItemView, asked: (Seq<char>, Seq<char>)) -> Option<(Seq<char>, Seq<char>)> {
    match item.repo {
        Some(r) => if r != ns_repo_text(asked) {
            parse_repo_ref(r)
        } else {
            None
        },
        None => None,
    }
}

/// The other repository an item belongs to, if any.
pub fn item_context(item: &IssueItem, repo: &RepoRef) -> (r: Option<RepoRef>)
    ensures
        match r {
            Some(x) => foreign_repo_text(item@, repo@) == Some(x@),
            None => foreign_repo_text(item@, repo@) is None,
        },
{
    match &item.repo {
        Some(t) => {
            let asked = repo.ns_repo();
            if crate::text::str_eq(t.as_str(), asked.as_str()) {
                None
            } else {
                RepoRef::parse(t.as_str())
            }
        },
        None => None,
    }
}

/// The row of an issue of the page. An issue of another repository takes
/// its `active` from that repository's sessions (`foreign_active`); one of
/// the repository asked about is active when its worktree is. `dc` is the
/// state of its containers in its own repository.
pub open spec fn issue_row_text(
    item: IssueItemView,
    asked: (Seq<char>, Seq<char>),
    active_ids: Seq<Seq<char>>,
    foreign_active: bool,
    dc: Seq<char>,
) -> IssueRowView {
    IssueRowView {
        id: item.id,
        title: item.title,
        repo: match item.repo {
            Some(r) => r,
            None => ns_repo_text(asked),
        },
        active: if foreign_repo_text(item, asked) is Some {
            foreign_active
        } else {
            active_ids.contains(item.id)
        },
        closed: false,
        devcontainer: dc,
        has_children: item.has_children,
    }
}

pub(crate) fn contains_text(v: &[String], x: &str) -> (b: bool)
    ensures
        b == string_views(v@).contains(x@),
{
    let ghost sv = string_views(v@);
    let n = v.len();
    let mut i: usize = 0;
    while i < n
        invariant
            i <= n,
            n == v@.len(),
            sv == string_views(v@),
            forall|k: int| 0 <= k < i ==> sv[k] != x@,
        decreases n - i,
    {
        assert(sv[i as int] == v@[i as int]@);
        if crate::text::str_eq(v[i].as_str(), x) {
            return true;
        }
        i = i + 1;
    }
    false
}

/// The row of one issue of the page.
pub fn issue_row(item: &IssueItem, repo: &RepoRef, active_ids: &[String], foreign_active: bool, dc: &str) -> (r: IssueRow)
    ensures
        r@ == issue_row_text(item@, repo@, string_views(active_ids@), foreign_active, dc@),
{
    let foreign = item_context(item, repo).is_some();
    let active = if foreign {
        foreign_active
    } else {
        contains_text(active_ids, item.id.as_str())
    };
    let repo_text = match &item.repo {
        Some(t) => crate::text::copy_string(t),
        None => repo.ns_repo(),
    };
    IssueRow {
        id: crate::text::copy_string(&item.id),
        title: crate::text::copy_string(&item.title),
        repo: repo_text,
        active,
        closed: false,
        devcontainer: owned(dc),
        has_children: item.has_children,
    }
}

/// The row of `main`, on the top level's first page only.
pub fn main_row(repo: &RepoRef, active: bool, dc: &str) -> (r: IssueRow)
    ensures
        r@ == (IssueRowView {
            id: "main"@,
            title: "main"@,
            repo: ns_repo_text(repo@),
            active,
            closed: false,
            devcontainer: dc@,
            has_children: false,
        }),
{
    IssueRow {
        id: owned("main"),
        title: owned("main"),
        repo: repo.ns_repo(),
        active,
        closed: false,
        devcontainer: owned(dc),
        has_children: false,
    }
}

/// The ids among the first `n` active worktrees that the page does not
/// list.
pub open spec fn orphans_in(active_ids: Seq<Seq<char>>, page_ids: Seq<Seq<char>>, n: nat) -> Seq<Seq<char>>
    decreases n,
{
    if n == 0 || n > active_ids.len() {
        Seq::empty()
    } else {
        let before = orphans_in(active_ids, page_ids, (n - 1) as nat);
        if page_ids.contains(active_ids[n - 1]) {
            before
        } else {
            before.push(active_ids[n - 1])
        }
    }
}

/// The ids of the items of a page.
pub open spec fn page_ids(items: Seq<IssueItemView>) -> Seq<Seq<char>> {
    items.map_values(|x: IssueItemView| x.id)
}

/// The orphaned worktrees: active worktrees whose issue is not on the page
/// (closed, a child, or on a later page), in worktree order.
pub fn orphan_ids(active_ids: &[String], items: &[IssueItem]) -> (r: Vec<String>)
    ensures
        string_views(r@) == orphans_in(
            string_views(active_ids@),
            page_ids(crate::tracker::item_views(items@)),
            active_ids@.len(),
        ),
{
    let ghost av = string_views(active_ids@);
    let ghost pv = page_ids(crate::tracker::item_views(items@));
    let mut out: Vec<String> = Vec::new();
    let n = active_ids.len();
    let mut i: usize = 0;
    assert(string_views(out@) =~= Seq::<Seq<char>>::empty());
    while i < n
        invariant
            i <= n,
            n == active_ids@.len(),
            av == string_views(active_ids@),
            pv == page_ids(crate::tracker::item_views(items@)),
            string_views(out@) == orphans_in(av, pv, i as nat),
        decreases n - i,
    {
        assert(av[i as int] == active_ids@[i as int]@);
        let mut found = false;
        let mut k: usize = 0;
        let m = items.len();
        while k < m
            invariant
                k <= m,
                m == items@.len(),
                pv == page_ids(crate::tracker::item_views(items@)),
                pv.len() == m,
                found == exists|j: int| 0 <= j < k && pv[j] == av[i as int],
                i < av.len(),
                av == string_views(active_ids@),
            decreases m - k,
        {
            assert(pv[k as int] == items@[k as int].id@);
            if crate::text::str_eq(items[k].id.as_str(), active_ids[i].as_str()) {
                found = true;
            }
            k = k + 1;
        }
        assert(found == pv.contains(av[i as int]));
        let ghost before = string_views(out@);
        if !found {
            out.push(crate::text::copy_string(&active_ids[i]));
            assert(string_views(out@) =~= before.push(av[i as int]));
        }
        i = i + 1;
    }
    out
}

/// The row of an orphaned worktree: its real title and state from the
/// tracker (`unknown` and closed when the tracker cannot tell).
pub open spec fn orphan_row_text(asked: (Seq<char>, Seq<char>), id: Seq<char>, answer: Option<(Seq<char>, bool)>, dc: Seq<char>) -> IssueRowView {
    let (title, closed) = match answer {
        Some((t, c)) => (t, c),
        None => ("unknown"@, true),
    };
    IssueRowView { id, title, repo: ns_repo_text(asked), active: true, closed, devcontainer: dc, has_children: false }
}

/// The row of an orphaned worktree, from the tracker's answer to
/// `issue-v0` (read by `tracker::issue`).
pub fn orphan_row(repo: &RepoRef, id: &str, answer: Option<(String, bool)>, dc: &str) -> (r: IssueRow)
    ensures
        r@ == orphan_row_text(
            repo@,
            id@,
            match answer {
                Some((t, c)) => Some((t@, c)),
                None => None,
            },
            dc@,
        ),
{
    let (title, closed) = match answer {
        Some((t, c)) => (t, c),
        None => (owned("unknown"), true),
    };
    IssueRow { id: owned(id), title, repo: repo.ns_repo(), active: true, closed, devcontainer: owned(dc), has_children: false }
}

/// `main` and the orphaned worktrees belong to the first page of the top
/// level only: `--parent` drills into a hierarchy, `--cursor` continues a
/// list.
pub fn first_page_extras(parent_given: bool, cursor_given: bool) -> (b: bool)
    ensures
        b == (!parent_given && !cursor_given),
{
    !parent_given && !cursor_given
}

/// The views of a list of issue rows.
pub open spec fn row_views(v: Seq<IssueRow>) -> Seq<IssueRowView> {
    Seq::new(v.len(), |i: int| v[i]@)
}

/// The rows of an issue list page: on the first page of the top level,
/// `main` first and the orphaned worktrees last, around the page's
/// issues; otherwise the page's issues alone.
pub fn list_issues(items: Vec<IssueRow>, extras: Option<(IssueRow, Vec<IssueRow>)>) -> (r: Vec<IssueRow>)
    ensures
        row_views(r@) == match extras {
            Some((main, orphans)) => seq![main@] + row_views(items@) + row_views(orphans@),
            None => row_views(items@),
        },
{
    match extras {
        None => items,
        Some((main, orphans)) => {
            let ghost iv = row_views(items@);
            let ghost ov = row_views(orphans@);
            let ghost mv = main@;
            let mut out: Vec<IssueRow> = Vec::new();
            out.push(main);
            let mut items = items;
            let mut orphans = orphans;
            out.append(&mut items);
            out.append(&mut orphans);
            assert(row_views(out@) =~= seq![mv] + iv + ov);
            out
        },
    }
}

/// The view of a tracker's answer about one issue (title, closed).
pub open spec fn answer_view(a: Option<(String, bool)>) -> Option<(Seq<char>, bool)> {
    match a {
        Some((t, c)) => Some((t@, c)),
        None => None,
    }
}

fn copy_answer(a: &Option<(String, bool)>) -> (r: Option<(String, bool)>)
    ensures
        answer_view(r) == answer_view(*a),
{
    match a {
        Some((t, c)) => Some((crate::text::copy_string(t), *c)),
        None => None,
    }
}

/// What the caller found out about each item of a page: whether its
/// Workspace has a session in its own repository (read for items of
/// another repository) and the state of its containers there.
pub open spec fn fact_views(v: Seq<(bool, String)>) -> Seq<(bool, Seq<char>)> {
    Seq::new(v.len(), |i: int| (v[i].0, v[i].1@))
}

/// What the caller found out about each orphaned worktree: the tracker's
/// answer and the state of its containers.
pub open spec fn orphan_fact_views(v: Seq<(Option<(String, bool)>, String)>) -> Seq<(Option<(Seq<char>, bool)>, Seq<char>)> {
    Seq::new(v.len(), |i: int| (answer_view(v[i].0), v[i].1@))
}

/// The row of `main`.
pub open spec fn main_row_text(asked: (Seq<char>, Seq<char>), active: bool, dc: Seq<char>) -> IssueRowView {
    IssueRowView {
        id: "main"@,
        title: "main"@,
        repo: ns_repo_text(asked),
        active,
        closed: false,
        devcontainer: dc,
        has_children: false,
    }
}

/// The rows of a page of issues: one row per item, in the plugin's order.
/// On the first page of the top level (`first`: whether `main` has a
/// session, its containers' state, and the facts of each orphan) the row
/// of `main` comes first and the orphaned worktrees (active worktrees the
/// page does not list, in worktree order) last, each active, with the
/// tracker's title and state.
pub open spec fn issue_rows_text(
    asked: (Seq<char>, Seq<char>),
    items: Seq<IssueItemView>,
    active_ids: Seq<Seq<char>>,
    facts: Seq<(bool, Seq<char>)>,
    first: Option<(bool, Seq<char>, Seq<(Option<(Seq<char>, bool)>, Seq<char>)>)>,
) -> Seq<IssueRowView> {
    let page = Seq::new(items.len(), |i: int| issue_row_text(items[i], asked, active_ids, facts[i].0, facts[i].1));
    match first {
        None => page,
        Some((main_active, main_dc, orphan_facts)) => {
            let orphans = orphans_in(active_ids, page_ids(items), active_ids.len());
            seq![main_row_text(asked, main_active, main_dc)] + page + Seq::new(
                orphans.len(),
                |k: int| orphan_row_text(asked, orphans[k], orphan_facts[k].0, orphan_facts[k].1),
            )
        },
    }
}

/// The rows of a page of issues of a repository, from what the caller
/// gathered: the page's items and the facts of each, the active worktrees
/// (in worktree order) and, on the first page of the top level only, the
/// facts of `main` and of each orphaned worktree (in the order of
/// [`orphan_ids`]).
pub fn issue_rows(
    repo: &RepoRef,
    items: &[IssueItem],
    active_ids: &[String],
    facts: &[(bool, String)],
    first: Option<(bool, String, Vec<(Option<(String, bool)>, String)>)>,
) -> (r: Vec<IssueRow>)
    requires
        facts@.len() == items@.len(),
        first matches Some((_, _, o)) ==> o@.len() == orphans_in(
            string_views(active_ids@),
            page_ids(crate::tracker::item_views(items@)),
            active_ids@.len(),
        ).len(),
    ensures
        row_views(r@) == issue_rows_text(
            repo@,
            crate::tracker::item_views(items@),
            string_views(active_ids@),
            fact_views(facts@),
            match first {
                Some((ma, md, o)) => Some((ma, md@, orphan_fact_views(o@))),
                None => None,
            },
        ),
{
    let ghost iv = crate::tracker::item_views(items@);
    let ghost av = string_views(active_ids@);
    let ghost fv = fact_views(facts@);
    let mut page: Vec<IssueRow> = Vec::new();
    let n = items.len();
    let mut i: usize = 0;
    assert(row_views(page@) =~= Seq::<IssueRowView>::empty());
    while i < n
        invariant
            i <= n,
            n == items@.len(),
            n == facts@.len(),
            iv == crate::tracker::item_views(items@),
            av == string_views(active_ids@),
            fv == fact_views(facts@),
            row_views(page@) =~= Seq::new(i as nat, |k: int| issue_row_text(iv[k], repo@, av, fv[k].0, fv[k].1)),
        decreases n - i,
    {
        let row = issue_row(&items[i], repo, active_ids, facts[i].0, facts[i].1.as_str());
        let ghost before = row_views(page@);
        page.push(row);
        assert(row_views(page@) =~= before.push(row@));
        i = i + 1;
    }
    match first {
        None => page,
        Some((main_active, main_dc, orphan_facts)) => {
            let main = main_row(repo, main_active, main_dc.as_str());
            let ids = orphan_ids(active_ids, items);
            let ghost ov = string_views(ids@);
            let ghost ofv = orphan_fact_views(orphan_facts@);
            let mut orphans: Vec<IssueRow> = Vec::new();
            let m = ids.len();
            let mut k: usize = 0;
            assert(row_views(orphans@) =~= Seq::<IssueRowView>::empty());
            while k < m
                invariant
                    k <= m,
                    m == ids@.len(),
                    m == orphan_facts@.len(),
                    ov == string_views(ids@),
                    ofv == orphan_fact_views(orphan_facts@),
                    row_views(orphans@) =~= Seq::new(k as nat, |j: int| orphan_row_text(repo@, ov[j], ofv[j].0, ofv[j].1)),
                decreases m - k,
            {
                let row = orphan_row(repo, ids[k].as_str(), copy_answer(&orphan_facts[k].0), orphan_facts[k].1.as_str());
                let ghost before = row_views(orphans@);
                orphans.push(row);
                assert(row_views(orphans@) =~= before.push(row@));
                k = k + 1;
            }
            list_issues(page, Some((main, orphans)))
        },
    }
}

// ---------------------------------------------------------------------------
// Active worktrees
// ---------------------------------------------------------------------------

/// Whether two texts name the same path (`Path` equality: by components).
pub uninterp spec fn same_path_text(a: Seq<char>, b: Seq<char>) -> bool;

/// Compares two paths with `Path`'s `==` (component-wise). The contract
/// names the result; the component rules are std's.
#[verifier::external_body]
fn same_path(a: &str, b: &str) -> (r: bool)
    ensures
        r == same_path_text(a@, b@),
{
    std::path::Path::new(a) == std::path::Path::new(b)
}

/// The worktrees among the first `n` pairs of `git worktree list` that sit
/// where the issue's Workspace belongs: (issue id, path).
pub open spec fn placed_in(
    paths: (Seq<char>, Seq<char>),
    entry: RepoEntryView,
    pairs: Seq<(Seq<char>, Seq<char>)>,
    n: nat,
) -> Seq<(Seq<char>, Seq<char>)>
    decreases n,
{
    if n == 0 || n > pairs.len() {
        Seq::empty()
    } else {
        let before = placed_in(paths, entry, pairs, (n - 1) as nat);
        let (path, issue) = pairs[n - 1];
        let expected = workspace_path_text(paths.1, entry.host, entry.clone_path, entry.repo, issue, false);
        if same_path_text(path, expected) {
            before.push((issue, expected))
        } else {
            before
        }
    }
}

/// The worktrees of a repository that sit where their issue's Workspace
/// belongs, as (issue id, Workspace path), from its porcelain listing. A
/// worktree is active when, besides, its directory exists and its
/// Workspace has a session ([`active_worktree_ids`]).
pub fn placed_worktrees(paths: &Paths, entry: &RepoEntry, porcelain: &str) -> (r: Vec<(String, String)>)
    ensures
        crate::worktree::string_pairs(r@) == placed_in(
            (paths.home@, paths.worktree_root@),
            entry@,
            crate::worktree::feature_worktrees(porcelain@),
            crate::worktree::feature_worktrees(porcelain@).len(),
        ),
{
    let pairs = crate::worktree::parse_feature_worktrees(porcelain);
    let ghost pv = crate::worktree::string_pairs(pairs@);
    let mut out: Vec<(String, String)> = Vec::new();
    let n = pairs.len();
    let mut i: usize = 0;
    assert(crate::worktree::string_pairs(out@) =~= Seq::<(Seq<char>, Seq<char>)>::empty());
    while i < n
        invariant
            i <= n,
            n == pairs@.len(),
            pv == crate::worktree::string_pairs(pairs@),
            crate::worktree::string_pairs(out@) == placed_in((paths.home@, paths.worktree_root@), entry@, pv, i as nat),
        decreases n - i,
    {
        assert(pv[i as int] == (pairs@[i as int].0@, pairs@[i as int].1@));
        let id = WorkspaceId::Issue(crate::text::copy_string(&pairs[i].1));
        let expected = crate::domains::workspace_path(paths, entry, &id);
        let ghost before = crate::worktree::string_pairs(out@);
        if same_path(pairs[i].0.as_str(), expected.as_str()) {
            out.push((crate::text::copy_string(&pairs[i].1), expected));
            assert(crate::worktree::string_pairs(out@) =~= before.push((pv[i as int].1, expected@)));
        }
        i = i + 1;
    }
    out
}

/// The active worktrees among the first `n` placed ones: those whose
/// directory exists and whose Workspace has a session, by issue id.
pub open spec fn active_in(placed: Seq<(Seq<char>, Seq<char>)>, facts: Seq<(bool, bool)>, n: nat) -> Seq<Seq<char>>
    decreases n,
{
    if n == 0 || n > placed.len() {
        Seq::empty()
    } else {
        let before = active_in(placed, facts, (n - 1) as nat);
        if facts[n - 1].0 && facts[n - 1].1 {
            before.push(placed[n - 1].0)
        } else {
            before
        }
    }
}

/// The ids of the active worktrees, in worktree order, from the placed
/// worktrees ([`placed_worktrees`]) and, for each, whether its directory
/// exists and whether its Workspace has a session.
pub fn active_worktree_ids(placed: &[(String, String)], facts: &[(bool, bool)]) -> (r: Vec<String>)
    requires
        facts@.len() == placed@.len(),
    ensures
        string_views(r@) == active_in(crate::worktree::string_pairs(placed@), facts@, placed@.len()),
{
    let ghost pv = crate::worktree::string_pairs(placed@);
    let mut out: Vec<String> = Vec::new();
    let n = placed.len();
    let mut i: usize = 0;
    assert(string_views(out@) =~= Seq::<Seq<char>>::empty());
    while i < n
        invariant
            i <= n,
            n == placed@.len(),
            n == facts@.len(),
            pv == crate::worktree::string_pairs(placed@),
            string_views(out@) == active_in(pv, facts@, i as nat),
        decreases n - i,
    {
        assert(pv[i as int] == (placed@[i as int].0@, placed@[i as int].1@));
        let ghost before = string_views(out@);
        if facts[i].0 && facts[i].1 {
            out.push(crate::text::copy_string(&placed[i].0));
            assert(string_views(out@) =~= before.push(pv[i as int].0));
        }
        i = i + 1;
    }
    out
}

// ---------------------------------------------------------------------------
// list-workspaces, list-repos, list-session-managers, list-trackers
// ---------------------------------------------------------------------------

/// One row of the list of active Workspaces.
pub struct WorkspaceRow {
    pub ns_repo: String,
    pub id: String,
    pub title: String,
    pub active: bool,
    pub closed: bool,
    pub devcontainer: String,
}

/// The row of an active worktree in the Workspace list: its title and
/// state from the tracker (`unknown` and open when it cannot tell).
pub fn workspace_row(repo: &RepoRef, id: &WorkspaceId, active: bool, answer: Option<(String, bool)>, dc: &str) -> (r: WorkspaceRow)
    ensures
        r.ns_repo@ == ns_repo_text(repo@),
        r.id@ == id.text(),
        r.active == active,
        r.devcontainer@ == dc@,
        id is Main ==> r.title@ == "main"@ && !r.closed,
        !(id is Main) ==> match answer {
            Some((t, c)) => r.title@ == t@ && r.closed == c,
            None => r.title@ == "unknown"@ && !r.closed,
        },
{
    let (title, closed) = match id {
        WorkspaceId::Main => (owned("main"), false),
        WorkspaceId::Issue(_) => match answer {
            Some((t, c)) => (t, c),
            None => (owned("unknown"), false),
        },
    };
    WorkspaceRow { ns_repo: repo.ns_repo(), id: owned(id.as_str()), title, active, closed, devcontainer: owned(dc) }
}

/// What the library knows of a Workspace row.
pub struct WorkspaceRowView {
    pub ns_repo: Seq<char>,
    pub id: Seq<char>,
    pub title: Seq<char>,
    pub active: bool,
    pub closed: bool,
    pub devcontainer: Seq<char>,
}

impl View for WorkspaceRow {
    type V = WorkspaceRowView;

    open spec fn view(&self) -> WorkspaceRowView {
        WorkspaceRowView {
            ns_repo: self.ns_repo@,
            id: self.id@,
            title: self.title@,
            active: self.active,
            closed: self.closed,
            devcontainer: self.devcontainer@,
        }
    }
}

/// The row of a Workspace: `main`, or an issue's worktree with the
/// tracker's title and state (`unknown` and open when it cannot tell).
pub open spec fn workspace_row_text(
    asked: (Seq<char>, Seq<char>),
    id: Seq<char>,
    main: bool,
    active: bool,
    answer: Option<(Seq<char>, bool)>,
    dc: Seq<char>,
) -> WorkspaceRowView {
    let (title, closed) = if main {
        ("main"@, false)
    } else {
        match answer {
            Some((t, c)) => (t, c),
            None => ("unknown"@, false),
        }
    };
    WorkspaceRowView { ns_repo: ns_repo_text(asked), id, title, active, closed, devcontainer: dc }
}

/// The views of a list of Workspace rows.
pub open spec fn workspace_row_views(v: Seq<WorkspaceRow>) -> Seq<WorkspaceRowView> {
    Seq::new(v.len(), |i: int| v[i]@)
}

/// The Workspace rows of one repository: `main` only when it has a
/// session, then each active worktree (issue id, whether it has a
/// session, the tracker's answer, its containers' state), in order.
pub open spec fn workspace_rows_text(
    asked: (Seq<char>, Seq<char>),
    main_active: bool,
    main_dc: Seq<char>,
    worktrees: Seq<(Seq<char>, bool, Option<(Seq<char>, bool)>, Seq<char>)>,
) -> Seq<WorkspaceRowView> {
    (if main_active {
        seq![workspace_row_text(asked, "main"@, true, true, None, main_dc)]
    } else {
        Seq::empty()
    }) + Seq::new(
        worktrees.len(),
        |i: int| workspace_row_text(asked, worktrees[i].0, false, worktrees[i].1, worktrees[i].2, worktrees[i].3),
    )
}

/// The Workspace rows of one repository, from what the caller gathered.
pub fn workspace_rows(
    repo: &RepoRef,
    main_active: bool,
    main_dc: &str,
    worktrees: &[(String, bool, Option<(String, bool)>, String)],
) -> (r: Vec<WorkspaceRow>)
    ensures
        workspace_row_views(r@) == workspace_rows_text(
            repo@,
            main_active,
            main_dc@,
            Seq::new(
                worktrees@.len(),
                |i: int| (worktrees@[i].0@, worktrees@[i].1, answer_view(worktrees@[i].2), worktrees@[i].3@),
            ),
        ),
{
    let ghost wv = Seq::new(
        worktrees@.len(),
        |i: int| (worktrees@[i].0@, worktrees@[i].1, answer_view(worktrees@[i].2), worktrees@[i].3@),
    );
    let mut out: Vec<WorkspaceRow> = Vec::new();
    if main_active {
        out.push(WorkspaceRow {
            ns_repo: repo.ns_repo(),
            id: owned("main"),
            title: owned("main"),
            active: true,
            closed: false,
            devcontainer: owned(main_dc),
        });
    }
    let ghost head = workspace_row_views(out@);
    assert(head =~= if main_active {
        seq![workspace_row_text(repo@, "main"@, true, true, None, main_dc@)]
    } else {
        Seq::empty()
    });
    let n = worktrees.len();
    let mut i: usize = 0;
    while i < n
        invariant
            i <= n,
            n == worktrees@.len(),
            wv == Seq::new(
                worktrees@.len(),
                |i: int| (worktrees@[i].0@, worktrees@[i].1, answer_view(worktrees@[i].2), worktrees@[i].3@),
            ),
            workspace_row_views(out@) =~= head + Seq::new(
                i as nat,
                |k: int| workspace_row_text(repo@, wv[k].0, false, wv[k].1, wv[k].2, wv[k].3),
            ),
        decreases n - i,
    {
        let (title, closed) = match &worktrees[i].2 {
            Some((t, c)) => (crate::text::copy_string(t), *c),
            None => (owned("unknown"), false),
        };
        let row = WorkspaceRow {
            ns_repo: repo.ns_repo(),
            id: crate::text::copy_string(&worktrees[i].0),
            title,
            active: worktrees[i].1,
            closed,
            devcontainer: crate::text::copy_string(&worktrees[i].3),
        };
        assert(row@ == workspace_row_text(repo@, wv[i as int].0, false, wv[i as int].1, wv[i as int].2, wv[i as int].3));
        let ghost before = workspace_row_views(out@);
        out.push(row);
        assert(workspace_row_views(out@) =~= before.push(row@));
        i = i + 1;
    }
    out
}

/// The number of active Workspaces of a repository: its active worktrees,
/// and one more when `main` has a session.
pub fn active_count(active_worktrees: usize, main_active: bool) -> (n: u64)
    requires
        active_worktrees < u64::MAX,
    ensures
        n == active_worktrees + if main_active { 1int } else { 0int },
{
    (active_worktrees as u64) + if main_active { 1 } else { 0 }
}

/// The key a repository list is sorted by.
pub open spec fn entry_key(e: RepoEntryView) -> Seq<char> {
    ns_repo_text(e.repo)
}

/// `x` put into the sorted `s`, after the entries it does not sort before
/// (so equal keys keep their order).
pub open spec fn insert_entry(s: Seq<RepoEntryView>, x: RepoEntryView) -> Seq<RepoEntryView>
    decreases s.len(),
{
    if s.len() == 0 {
        seq![x]
    } else if crate::devcontainer::text_less(entry_key(x), entry_key(s[0])) {
        seq![x] + s
    } else {
        seq![s[0]] + insert_entry(s.drop_first(), x)
    }
}

/// The first `n` entries sorted by `<ns>/<repo>` (stable).
pub open spec fn sorted_entries(es: Seq<RepoEntryView>, n: nat) -> Seq<RepoEntryView>
    decreases n,
{
    if n == 0 || n > es.len() {
        Seq::empty()
    } else {
        insert_entry(sorted_entries(es, (n - 1) as nat), es[n - 1])
    }
}

fn insert_entry_exec(sorted: &mut Vec<RepoEntry>, x: RepoEntry)
    ensures
        entry_views(final(sorted)@) == insert_entry(entry_views(old(sorted)@), x@),
{
    let ghost s = entry_views(sorted@);
    let key = chars_of(x.repo.ns_repo().as_str());
    let mut i: usize = 0;
    assert(s.skip(0) =~= s);
    while i < sorted.len()
        invariant
            i <= sorted@.len(),
            s == entry_views(sorted@),
            sorted@ == old(sorted)@,
            key@ == entry_key(x@),
            insert_entry(s, x@) == s.take(i as int) + insert_entry(s.skip(i as int), x@),
        decreases sorted.len() - i,
    {
        let ghost rest = s.skip(i as int);
        assert(rest[0] == sorted@[i as int]@);
        let other = chars_of(sorted[i].repo.ns_repo().as_str());
        if crate::devcontainer::sorts_before(&key, &other) {
            let ghost xv = x@;
            sorted.insert(i, x);
            assert(entry_views(sorted@) =~= s.take(i as int) + (seq![xv] + rest));
            return;
        }
        assert(rest.drop_first() =~= s.skip(i + 1));
        assert(s.take(i + 1) =~= s.take(i as int) + seq![rest[0]]);
        i = i + 1;
    }
    let ghost xv = x@;
    assert(s.skip(i as int) =~= Seq::<RepoEntryView>::empty());
    assert(s.take(i as int) =~= s);
    sorted.push(x);
    assert(entry_views(sorted@) =~= s.push(xv));
    assert(s + seq![xv] =~= s.push(xv));
}

/// The entries of the store sorted by `<ns>/<repo>`, equal keys keeping
/// their order (`list-repos` without a group).
pub fn sort_entries(entries: Vec<RepoEntry>) -> (r: Vec<RepoEntry>)
    ensures
        entry_views(r@) == sorted_entries(entry_views(entries@), entries@.len()),
{
    let ghost ev = entry_views(entries@);
    let ghost n = ev.len();
    let mut rest = entries;
    let mut sorted: Vec<RepoEntry> = Vec::new();
    assert(entry_views(sorted@) =~= sorted_entries(ev, 0));
    while rest.len() > 0
        invariant
            n == ev.len(),
            rest@.len() <= n,
            entry_views(rest@) == ev.skip(n - rest@.len()),
            entry_views(sorted@) == sorted_entries(ev, (n - rest@.len()) as nat),
        decreases rest.len(),
    {
        let ghost done = n - rest@.len();
        let ghost old_rest = rest@;
        assert(entry_views(old_rest)[0] == old_rest[0]@);
        let x = rest.remove(0);
        assert(x@ == ev[done]);
        assert(rest@ =~= old_rest.skip(1));
        assert forall|k: int| 0 <= k < rest@.len() implies #[trigger] entry_views(rest@)[k] == ev.skip(n - rest@.len())[k] by {
            assert(entry_views(old_rest)[k + 1] == old_rest[k + 1]@);
        }
        assert(entry_views(rest@) =~= ev.skip(n - rest@.len()));
        insert_entry_exec(&mut sorted, x);
    }
    sorted
}

/// The entries of a repo-group's members that the store has: for each
/// member (in the tracker's order) that reads as `<ns>/<repo>`, the first
/// entry with that identifier.
pub open spec fn group_members_in(
    names: Seq<Seq<char>>,
    es: Seq<RepoEntryView>,
    n: nat,
) -> Seq<RepoEntryView>
    decreases n,
{
    if n == 0 || n > names.len() {
        Seq::empty()
    } else {
        let before = group_members_in(names, es, (n - 1) as nat);
        match parse_repo_ref(names[n - 1]) {
            Some(r) => match first_entry(es, r) {
                Some(i) => before.push(es[i]),
                None => before,
            },
            None => before,
        }
    }
}

/// `i` is the first entry with this identifier.
pub open spec fn is_first_entry(es: Seq<RepoEntryView>, r: (Seq<char>, Seq<char>), i: int) -> bool {
    &&& 0 <= i < es.len()
    &&& es[i].repo == r
    &&& forall|j: int| 0 <= j < i ==> es[j].repo != r
}

/// The first entry with this identifier.
pub open spec fn first_entry(es: Seq<RepoEntryView>, r: (Seq<char>, Seq<char>)) -> Option<int> {
    if exists|i: int| is_first_entry(es, r, i) {
        Some(choose|i: int| is_first_entry(es, r, i))
    } else {
        None
    }
}

fn first_entry_index(entries: &[RepoEntry], r: &RepoRef) -> (found: Option<usize>)
    ensures
        match found {
            Some(k) => k < entries@.len() && entry_views(entries@)[k as int].repo == r@
                && forall|j: int| 0 <= j < k ==> entry_views(entries@)[j].repo != r@,
            None => forall|j: int| 0 <= j < entries@.len() ==> entry_views(entries@)[j].repo != r@,
        },
{
    let ghost es = entry_views(entries@);
    let m = entries.len();
    let mut k: usize = 0;
    while k < m
        invariant
            k <= m,
            m == entries@.len(),
            es == entry_views(entries@),
            forall|j: int| 0 <= j < k ==> es[j].repo != r@,
        decreases m - k,
    {
        assert(es[k as int] == entries@[k as int]@);
        if entries[k].repo.same(r) {
            return Some(k);
        }
        k = k + 1;
    }
    None
}

/// The repositories of a repo-group that are in the store (the meet of the
/// tracker's group and the local clones), from the tracker's answer.
pub fn group_entries(members_output: Option<&str>, entries: &[RepoEntry]) -> (r: Vec<RepoEntry>)
    ensures
        entry_views(r@) == group_members_in(
            group_repos_of(opt_text(members_output)),
            entry_views(entries@),
            group_repos_of(opt_text(members_output)).len(),
        ),
{
    let names = crate::tracker::repo_group_repos(members_output);
    let ghost nv = string_views(names@);
    let ghost es = entry_views(entries@);
    let mut out: Vec<RepoEntry> = Vec::new();
    let n = names.len();
    let mut i: usize = 0;
    assert(entry_views(out@) =~= Seq::<RepoEntryView>::empty());
    while i < n
        invariant
            i <= n,
            n == names@.len(),
            nv == string_views(names@),
            es == entry_views(entries@),
            entry_views(out@) == group_members_in(nv, es, i as nat),
        decreases n - i,
    {
        assert(nv[i as int] == names@[i as int]@);
        let ghost before = entry_views(out@);
        if let Some(r) = RepoRef::parse(names[i].as_str()) {
            let found = first_entry_index(entries, &r);
            if let Some(k) = found {
                proof {
                    assert(is_first_entry(es, r@, k as int));
                    let c = choose|c: int| is_first_entry(es, r@, c);
                    if c < k {
                        assert(es[c].repo != r@);
                    } else if k < c {
                        assert(es[k as int].repo != r@);
                    }
                }
                out.push(entries[k].duplicate());
                assert(entry_views(out@) =~= before.push(es[k as int]));
            } else {
                assert(!exists|c: int| is_first_entry(es, r@, c));
            }
        }
        i = i + 1;
    }
    out
}

/// The configured session managers in the order of the settings, each
/// with whether it is the default one shown to the user.
pub fn list_session_managers(content: Option<&str>, managers: &Managers) -> (r: Vec<(&'static str, bool)>)
    ensures
        r@.len() == managers@.len(),
        forall|i: int| 0 <= i < r@.len() ==> (#[trigger] r@[i]).0@ == manager_name(managers@[i].0)
            && r@[i].1 == (default_manager_text(opt_text(content), managers@) == Some(manager_name(managers@[i].0))),
{
    let names = managers.names();
    let default = crate::settings::default_manager_name(content, managers);
    let mut out: Vec<(&'static str, bool)> = Vec::new();
    let mut i: usize = 0;
    while i < names.len()
        invariant
            i <= names@.len(),
            names@.len() == managers@.len(),
            forall|k: int| 0 <= k < names@.len() ==> (#[trigger] names@[k])@ == manager_name(managers@[k].0),
            match default {
                Some(d) => default_manager_text(opt_text(content), managers@) == Some(d@),
                None => default_manager_text(opt_text(content), managers@) is None,
            },
            out@.len() == i,
            forall|k: int| 0 <= k < i ==> (#[trigger] out@[k]).0@ == manager_name(managers@[k].0)
                && out@[k].1 == (default_manager_text(opt_text(content), managers@) == Some(manager_name(managers@[k].0))),
        decreases names.len() - i,
    {
        let name = names[i];
        assert(name@ == manager_name(managers@[i as int].0));
        let is_default = match default {
            Some(d) => crate::text::str_eq(name, d),
            None => false,
        };
        out.push((name, is_default));
        i = i + 1;
    }
    out
}

/// One row of the tracker list (the `wsm doctor` report).
pub struct TrackerRow {
    pub name: String,
    pub path: String,
    pub default: bool,
    pub installed: bool,
    pub ready: Option<bool>,
    pub diagnosis: Option<String>,
    pub protocol: Option<Vec<String>>,
}

/// The row of one tracker: whether its executable is installed and, when
/// it is, its self check (`info-v0`; nulls when not installed or not
/// answered).
pub fn tracker_row(tracker: &Tracker, default: Option<&str>, installed: bool, info_output: Option<&str>) -> (r: TrackerRow)
    ensures
        r.name@ == tracker@.name,
        r.path@ == tracker@.path,
        r.default == (opt_text(default) == Some(tracker@.name)),
        r.installed == installed,
        (installed && info_of(opt_text(info_output)) is Some) ==> (info_of(opt_text(info_output)) matches Some((ready, diagnosis, protocol))
            && r.ready == Some(ready)
            && opt_string(r.diagnosis) == diagnosis
            && match r.protocol {
                Some(p) => protocol == Some(string_views(p@)),
                None => protocol is None,
            }),
        !(installed && info_of(opt_text(info_output)) is Some) ==> r.ready is None && r.diagnosis is None && r.protocol is None,
{
    let is_default = match default {
        Some(d) => crate::text::str_eq(tracker.name(), d),
        None => false,
    };
    let info = if installed {
        crate::tracker::info(info_output)
    } else {
        None
    };
    let (ready, diagnosis, protocol) = match info {
        Some((ready, diagnosis, protocol)) => (Some(ready), diagnosis, protocol),
        None => (None, None, None),
    };
    TrackerRow {
        name: owned(tracker.name()),
        path: owned(tracker.path()),
        default: is_default,
        installed,
        ready,
        diagnosis,
        protocol,
    }
}

// ---------------------------------------------------------------------------
// list-devcontainer-configs
// ---------------------------------------------------------------------------

/// The devcontainer configs a Workspace offers: its own (source `repo`),
/// then the configured fallback (`default`, source `default`) when there
/// is one.
pub fn config_rows(repo_configs: Vec<(String, String)>, fallback: Option<String>) -> (r: Vec<(String, String, String)>)
    ensures
        r@.len() == repo_configs@.len() + if fallback is Some { 1int } else { 0int },
        forall|i: int| 0 <= i < repo_configs@.len() ==> (#[trigger] r@[i]).0@ == repo_configs@[i].0@
            && r@[i].1@ == repo_configs@[i].1@ && r@[i].2@ == "repo"@,
        fallback matches Some(p) ==> r@[repo_configs@.len() as int].0@ == "default"@
            && r@[repo_configs@.len() as int].1@ == p@ && r@[repo_configs@.len() as int].2@ == "default"@,
{
    let mut out: Vec<(String, String, String)> = Vec::new();
    let mut i: usize = 0;
    while i < repo_configs.len()
        invariant
            i <= repo_configs@.len(),
            out@.len() == i,
            forall|k: int| 0 <= k < i ==> (#[trigger] out@[k]).0@ == repo_configs@[k].0@
                && out@[k].1@ == repo_configs@[k].1@ && out@[k].2@ == "repo"@,
        decreases repo_configs.len() - i,
    {
        out.push((
            crate::text::copy_string(&repo_configs[i].0),
            crate::text::copy_string(&repo_configs[i].1),
            owned("repo"),
        ));
        i = i + 1;
    }
    assert(i == repo_configs@.len());
    assert forall|k: int| 0 <= k < repo_configs@.len() implies (#[trigger] out@[k]).0@ == repo_configs@[k].0@
        && out@[k].1@ == repo_configs@[k].1@ && out@[k].2@ == "repo"@ by {
        assert(k < i);
    }
    if let Some(p) = fallback {
        let ghost before = out@;
        out.push((owned("default"), p, owned("default")));
        assert forall|k: int| 0 <= k < repo_configs@.len() implies (#[trigger] out@[k]).0@ == repo_configs@[k].0@
            && out@[k].1@ == repo_configs@[k].1@ && out@[k].2@ == "repo"@ by {
            assert(out@[k] == before[k]);
        }
    }
    out
}

// ---------------------------------------------------------------------------
// open and remove
// ---------------------------------------------------------------------------

/// The message of an open answer: `Opened <ns>/<repo> (main) [<manager>]`
/// or `Opened <ns>/<repo> <id> [<manager>]` (no tracker notation), with
/// ` + devcontainer(s) [<outcome>: <config>, ...]` when containers were
/// started.
pub open spec fn open_message_text(
    repo: (Seq<char>, Seq<char>),
    id: Seq<char>,
    main: bool,
    manager: SessionManager,
    outcomes: Seq<(Outcome, Seq<char>)>,
) -> Seq<char> {
    let base = if main {
        "Opened "@ + ns_repo_text(repo) + " (main) ["@ + manager_name(manager) + "]"@
    } else {
        "Opened "@ + ns_repo_text(repo) + " "@ + id + " ["@ + manager_name(manager) + "]"@
    };
    if outcomes.len() == 0 {
        base
    } else {
        base + " + devcontainer(s) ["@ + outcome_list(outcomes, outcomes.len()) + "]"@
    }
}

/// The first `n` outcomes as `<outcome>: <config>`, joined with `, `.
pub open spec fn outcome_list(outcomes: Seq<(Outcome, Seq<char>)>, n: nat) -> Seq<char>
    decreases n,
{
    if n == 0 || n > outcomes.len() {
        Seq::empty()
    } else if n == 1 {
        outcome_label(outcomes[0].0) + ": "@ + outcomes[0].1
    } else {
        outcome_list(outcomes, (n - 1) as nat) + ", "@ + outcome_label(outcomes[n - 1].0) + ": "@ + outcomes[n - 1].1
    }
}

/// The message of an open answer.
pub fn open_message(repo: &RepoRef, id: &WorkspaceId, manager: SessionManager, outcomes: &[(Outcome, String)]) -> (s: String)
    ensures
        s@ == open_message_text(
            repo@,
            id.text(),
            id is Main,
            manager,
            Seq::new(outcomes@.len(), |i: int| (outcomes@[i].0, outcomes@[i].1@)),
        ),
{
    let ghost ov = Seq::new(outcomes@.len(), |i: int| (outcomes@[i].0, outcomes@[i].1@));
    let mut m = chars_of("Opened ");
    crate::text::append_chars(&mut m, &chars_of(repo.ns_repo().as_str()));
    match id {
        WorkspaceId::Main => {
            crate::text::append_chars(&mut m, &chars_of(" (main) ["));
        },
        WorkspaceId::Issue(n) => {
            crate::text::append_chars(&mut m, &chars_of(" "));
            crate::text::append_chars(&mut m, &chars_of(n.as_str()));
            crate::text::append_chars(&mut m, &chars_of(" ["));
        },
    }
    crate::text::append_chars(&mut m, &chars_of(manager.name()));
    crate::text::append_chars(&mut m, &chars_of("]"));
    let ghost base = m@;
    if outcomes.len() == 0 {
        return string_of(&m);
    }
    let mut list: Vec<char> = Vec::new();
    let n = outcomes.len();
    let mut i: usize = 0;
    while i < n
        invariant
            i <= n,
            n == outcomes@.len(),
            ov == Seq::new(outcomes@.len(), |k: int| (outcomes@[k].0, outcomes@[k].1@)),
            list@ == outcome_list(ov, i as nat),
        decreases n - i,
    {
        if i > 0 {
            crate::text::append_chars(&mut list, &chars_of(", "));
        }
        crate::text::append_chars(&mut list, &chars_of(outcomes[i].0.label()));
        crate::text::append_chars(&mut list, &chars_of(": "));
        crate::text::append_chars(&mut list, &chars_of(outcomes[i].1.as_str()));
        assert(list@ =~= outcome_list(ov, (i + 1) as nat));
        i = i + 1;
    }
    crate::text::append_chars(&mut m, &chars_of(" + devcontainer(s) ["));
    crate::text::append_chars(&mut m, &list);
    crate::text::append_chars(&mut m, &chars_of("]"));
    string_of(&m)
}

/// The error of an open whose devcontainer did not come up.
pub fn up_failure(config: &str) -> (e: String)
    ensures
        e@ == "devcontainer up failed for "@ + config@,
{
    message("devcontainer up failed for ", &chars_of(config))
}

/// The refusal to remove `main` while the herdr session of the repository
/// still holds issue workspaces.
pub fn remove_refusal(repo: &RepoRef) -> (e: String)
    ensures
        e@ == "herdr session has open issue workspaces: "@ + herdr_session_text(repo@),
{
    message("herdr session has open issue workspaces: ", &chars_of(crate::domains::herdr_session_name(repo).as_str()))
}

/// The message of a remove answer: `Removed session: <ns>/<repo>` for
/// `main`, `Removed worktree and session: <ns>/<repo> <id>` otherwise.
pub fn remove_message(repo: &RepoRef, id: &WorkspaceId) -> (s: String)
    ensures
        s@ == if id is Main {
            "Removed session: "@ + ns_repo_text(repo@)
        } else {
            "Removed worktree and session: "@ + ns_repo_text(repo@) + " "@ + id.text()
        },
{
    match id {
        WorkspaceId::Main => message("Removed session: ", &chars_of(repo.ns_repo().as_str())),
        WorkspaceId::Issue(n) => {
            let mut m = chars_of("Removed worktree and session: ");
            crate::text::append_chars(&mut m, &chars_of(repo.ns_repo().as_str()));
            crate::text::append_chars(&mut m, &chars_of(" "));
            crate::text::append_chars(&mut m, &chars_of(n.as_str()));
            string_of(&m)
        },
    }
}


// ---------------------------------------------------------------------------
// Laws
// ---------------------------------------------------------------------------

/// An orphaned worktree is an active worktree whose issue the page does not
/// list: orphans and listed issues never show twice.
pub proof fn law_orphans_are_active_and_unlisted(active_ids: Seq<Seq<char>>, page: Seq<Seq<char>>, n: nat)
    requires
        n <= active_ids.len(),
    ensures
        forall|k: int| 0 <= k < orphans_in(active_ids, page, n).len() ==> active_ids.contains(#[trigger] orphans_in(active_ids, page, n)[k])
            && !page.contains(orphans_in(active_ids, page, n)[k]),
    decreases n,
{
    if n > 0 {
        law_orphans_are_active_and_unlisted(active_ids, page, (n - 1) as nat);
        let before = orphans_in(active_ids, page, (n - 1) as nat);
        assert forall|k: int| 0 <= k < orphans_in(active_ids, page, n).len() implies active_ids.contains(#[trigger] orphans_in(active_ids, page, n)[k])
            && !page.contains(orphans_in(active_ids, page, n)[k]) by {
            if k < before.len() {
                assert(orphans_in(active_ids, page, n)[k] == before[k]);
            } else {
                assert(orphans_in(active_ids, page, n)[k] == active_ids[n - 1]);
            }
        }
    }
}


/// The keys of a list of entries.
pub open spec fn entry_keys(es: Seq<RepoEntryView>) -> Seq<Seq<char>> {
    es.map_values(|e: RepoEntryView| entry_key(e))
}

proof fn lemma_insert_entry_keys(s: Seq<RepoEntryView>, x: RepoEntryView)
    ensures
        entry_keys(insert_entry(s, x)) == crate::devcontainer::insert_sorted(entry_keys(s), entry_key(x)),
    decreases s.len(),
{
    if s.len() == 0 {
        assert(entry_keys(insert_entry(s, x)) =~= seq![entry_key(x)]);
    } else if crate::devcontainer::text_less(entry_key(x), entry_key(s[0])) {
        assert(entry_keys(s)[0] == entry_key(s[0]));
        assert(entry_keys(insert_entry(s, x)) =~= seq![entry_key(x)] + entry_keys(s));
    } else {
        assert(entry_keys(s)[0] == entry_key(s[0]));
        lemma_insert_entry_keys(s.drop_first(), x);
        assert(entry_keys(s).drop_first() =~= entry_keys(s.drop_first()));
        assert(entry_keys(insert_entry(s, x)) =~= seq![entry_key(s[0])] + entry_keys(insert_entry(s.drop_first(), x)));
    }
}

proof fn lemma_sorted_entry_keys(es: Seq<RepoEntryView>, n: nat)
    requires
        n <= es.len(),
    ensures
        entry_keys(sorted_entries(es, n)) == crate::devcontainer::sorted_names(entry_keys(es), n),
    decreases n,
{
    if n > 0 {
        lemma_sorted_entry_keys(es, (n - 1) as nat);
        lemma_insert_entry_keys(sorted_entries(es, (n - 1) as nat), es[n - 1]);
        assert(entry_keys(es)[n - 1] == entry_key(es[n - 1]));
    } else {
        assert(entry_keys(sorted_entries(es, 0)) =~= Seq::<Seq<char>>::empty());
    }
}

proof fn lemma_insert_entry_is_insert(s: Seq<RepoEntryView>, x: RepoEntryView) -> (p: int)
    ensures
        0 <= p <= s.len(),
        insert_entry(s, x) == s.insert(p, x),
    decreases s.len(),
{
    if s.len() > 0 && !crate::devcontainer::text_less(entry_key(x), entry_key(s[0])) {
        let q = lemma_insert_entry_is_insert(s.drop_first(), x);
        assert(insert_entry(s, x) =~= s.insert(q + 1, x));
        q + 1
    } else {
        assert(insert_entry(s, x) =~= s.insert(0, x));
        0
    }
}

/// `list-repos` without a group lists every entry of the store once, in
/// `<ns>/<repo>` order.
pub proof fn law_entries_sorted(es: Seq<RepoEntryView>, n: nat)
    requires
        n <= es.len(),
    ensures
        crate::devcontainer::in_order(entry_keys(sorted_entries(es, n))),
        sorted_entries(es, n).to_multiset() == es.subrange(0, n as int).to_multiset(),
    decreases n,
{
    broadcast use vstd::seq_lib::group_to_multiset_ensures;
    lemma_sorted_entry_keys(es, n);
    crate::devcontainer::law_names_sorted(entry_keys(es), n);
    if n > 0 {
        law_entries_sorted(es, (n - 1) as nat);
        let before = sorted_entries(es, (n - 1) as nat);
        let p = lemma_insert_entry_is_insert(before, es[n - 1]);
        vstd::seq_lib::to_multiset_insert(before, p, es[n - 1]);
        assert(es.subrange(0, n as int) =~= es.subrange(0, n - 1).push(es[n - 1]));
    } else {
        assert(es.subrange(0, 0) =~= Seq::<RepoEntryView>::empty());
    }
}

/// The Workspace list of a repository: `main` first when its session
/// exists, with `main`'s own container state; then one row per active
/// worktree, in the order given, carrying that worktree's id, session,
/// the tracker's title and state for it (`unknown` and open when the
/// tracker cannot tell) and that worktree's own container state.
pub proof fn law_workspace_rows_carry_their_own_facts(
    asked: (Seq<char>, Seq<char>),
    main_active: bool,
    main_dc: Seq<char>,
    worktrees: Seq<(Seq<char>, bool, Option<(Seq<char>, bool)>, Seq<char>)>,
)
    ensures
        ({
            let rows = workspace_rows_text(asked, main_active, main_dc, worktrees);
            let off: int = if main_active { 1 } else { 0 };
            &&& rows.len() == off + worktrees.len()
            &&& main_active ==> rows[0] == WorkspaceRowView {
                ns_repo: ns_repo_text(asked),
                id: "main"@,
                title: "main"@,
                active: true,
                closed: false,
                devcontainer: main_dc,
            }
            &&& forall|i: int| 0 <= i < worktrees.len() ==> {
                let row = #[trigger] rows[off + i];
                &&& row.ns_repo == ns_repo_text(asked)
                &&& row.id == worktrees[i].0
                &&& row.active == worktrees[i].1
                &&& row.devcontainer == worktrees[i].3
                &&& match worktrees[i].2 {
                    Some((t, c)) => row.title == t && row.closed == c,
                    None => row.title == "unknown"@ && !row.closed,
                }
            }
        }),
{
    let rows = workspace_rows_text(asked, main_active, main_dc, worktrees);
    let off: int = if main_active { 1 } else { 0 };
    assert forall|i: int| 0 <= i < worktrees.len() implies {
        let row = #[trigger] rows[off + i];
        &&& row.ns_repo == ns_repo_text(asked)
        &&& row.id == worktrees[i].0
        &&& row.active == worktrees[i].1
        &&& row.devcontainer == worktrees[i].3
        &&& match worktrees[i].2 {
            Some((t, c)) => row.title == t && row.closed == c,
            None => row.title == "unknown"@ && !row.closed,
        }
    } by {
        assert(rows[off + i] == workspace_row_text(asked, worktrees[i].0, false, worktrees[i].1, worktrees[i].2, worktrees[i].3));
    }
}

/// Not among the ids of the page.
pub open spec fn not_listed(page_ids: Seq<Seq<char>>) -> spec_fn(Seq<char>) -> bool {
    |x: Seq<char>| !page_ids.contains(x)
}

/// The orphaned worktrees are exactly the active worktrees whose issue is
/// not on the page, in worktree order: all of them when the page is empty,
/// none of those the page lists.
pub proof fn law_orphans_are_the_unlisted_active_worktrees(active_ids: Seq<Seq<char>>, page_ids: Seq<Seq<char>>, n: nat)
    requires
        n <= active_ids.len(),
    ensures
        orphans_in(active_ids, page_ids, n) == active_ids.take(n as int).filter(not_listed(page_ids)),
    decreases n,
{
    reveal(Seq::filter);
    let t = active_ids.take(n as int);
    if n > 0 {
        law_orphans_are_the_unlisted_active_worktrees(active_ids, page_ids, (n - 1) as nat);
        assert(t.drop_last() =~= active_ids.take(n - 1));
        assert(t.last() == active_ids[n - 1]);
    } else {
        assert(t =~= Seq::<Seq<char>>::empty());
    }
}

/// Whether every orphan id is an active id the page does not list, and
/// every such active id is an orphan.
pub proof fn law_orphans_are_complete(active_ids: Seq<Seq<char>>, page_ids: Seq<Seq<char>>)
    ensures
        forall|x: Seq<char>| #[trigger] orphans_in(active_ids, page_ids, active_ids.len()).contains(x) <==> (
            active_ids.contains(x) && !page_ids.contains(x)),
{
    law_orphans_are_the_unlisted_active_worktrees(active_ids, page_ids, active_ids.len());
    let pred = not_listed(page_ids);
    let t = active_ids.take(active_ids.len() as int);
    assert(t =~= active_ids);
    let f = active_ids.filter(pred);
    assert forall|x: Seq<char>| #[trigger] orphans_in(active_ids, page_ids, active_ids.len()).contains(x) <==> (
        active_ids.contains(x) && !page_ids.contains(x)) by {
        if f.contains(x) {
            active_ids.lemma_filter_contains_rev(pred, x);
            let i = choose|i: int| 0 <= i < f.len() && f[i] == x;
            active_ids.lemma_filter_pred(pred, i);
        }
        if active_ids.contains(x) && !page_ids.contains(x) {
            let i = choose|i: int| 0 <= i < active_ids.len() && active_ids[i] == x;
            active_ids.lemma_filter_contains(pred, i);
        }
    }
}

proof fn lemma_first_entry_exists(es: Seq<RepoEntryView>, r: (Seq<char>, Seq<char>), j: int)
    requires
        0 <= j < es.len(),
        es[j].repo == r,
    ensures
        first_entry(es, r) matches Some(i) && is_first_entry(es, r, i),
    decreases j,
{
    if forall|k: int| 0 <= k < j ==> es[k].repo != r {
        assert(is_first_entry(es, r, j));
    } else {
        let k = choose|k: int| 0 <= k < j && es[k].repo == r;
        lemma_first_entry_exists(es, r, k);
    }
}

/// The entry a member of a repo-group yields, if any.
pub open spec fn member_entry(es: Seq<RepoEntryView>, name: Seq<char>) -> Option<RepoEntryView> {
    match parse_repo_ref(name) {
        Some(r) => match first_entry(es, r) {
            Some(i) => Some(es[i]),
            None => None,
        },
        None => None,
    }
}

proof fn lemma_group_step(names: Seq<Seq<char>>, es: Seq<RepoEntryView>, n: nat)
    requires
        0 < n <= names.len(),
    ensures
        group_members_in(names, es, n) == match member_entry(es, names[n - 1]) {
            Some(e) => group_members_in(names, es, (n - 1) as nat).push(e),
            None => group_members_in(names, es, (n - 1) as nat),
        },
{
}

/// The repositories listed for a repo-group include every member that is
/// in the store: each member that reads as `<ns>/<repo>` and has an entry
/// yields an entry with that identifier, wherever it stands among the
/// members.
pub proof fn law_group_lists_every_stored_member(names: Seq<Seq<char>>, es: Seq<RepoEntryView>, n: nat)
    requires
        n <= names.len(),
    ensures
        forall|k: int, j: int| 0 <= k < n && 0 <= j < es.len() && parse_repo_ref(#[trigger] names[k]) == Some(
            #[trigger] es[j].repo,
        ) ==> group_members_in(names, es, n).map_values(|e: RepoEntryView| e.repo).contains(es[j].repo),
    decreases n,
{
    if n > 0 {
        law_group_lists_every_stored_member(names, es, (n - 1) as nat);
        lemma_group_step(names, es, n);
        let before = group_members_in(names, es, (n - 1) as nat);
        let now = group_members_in(names, es, n);
        let bv = before.map_values(|e: RepoEntryView| e.repo);
        let nv = now.map_values(|e: RepoEntryView| e.repo);
        assert forall|k: int, j: int| 0 <= k < n && 0 <= j < es.len() && parse_repo_ref(#[trigger] names[k]) == Some(
            #[trigger] es[j].repo,
        ) implies nv.contains(es[j].repo) by {
            if k < n - 1 {
                assert(bv.contains(es[j].repo));
                let m = choose|m: int| 0 <= m < bv.len() && bv[m] == es[j].repo;
                assert(nv[m] == bv[m]);
            } else {
                lemma_first_entry_exists(es, es[j].repo, j);
                let i = first_entry(es, es[j].repo)->0;
                assert(nv[before.len() as int] == es[i].repo);
            }
        }
    }
}

/// Every repository listed for a repo-group is an entry of the store that
/// some member names.
pub proof fn law_group_lists_only_stored_members(names: Seq<Seq<char>>, es: Seq<RepoEntryView>, n: nat)
    requires
        n <= names.len(),
    ensures
        forall|m: int| 0 <= m < group_members_in(names, es, n).len() ==> exists|k: int, j: int|
            0 <= k < n && 0 <= j < es.len() && #[trigger] group_members_in(names, es, n)[m] == es[j]
                && parse_repo_ref(names[k]) == Some(es[j].repo),
    decreases n,
{
    if n > 0 {
        law_group_lists_only_stored_members(names, es, (n - 1) as nat);
        lemma_group_step(names, es, n);
        let before = group_members_in(names, es, (n - 1) as nat);
        let now = group_members_in(names, es, n);
        assert forall|m: int| 0 <= m < now.len() implies exists|k: int, j: int|
            0 <= k < n && 0 <= j < es.len() && #[trigger] now[m] == es[j]
                && parse_repo_ref(names[k]) == Some(es[j].repo) by {
            if m < before.len() {
                assert(now[m] == before[m]);
                let (k, j) = choose|k: int, j: int| 0 <= k < n - 1 && 0 <= j < es.len() && #[trigger] before[m] == es[j]
                    && parse_repo_ref(names[k]) == Some(es[j].repo);
                assert(0 <= k < n && 0 <= j < es.len() && now[m] == es[j] && parse_repo_ref(names[k]) == Some(es[j].repo));
            } else {
                let r = parse_repo_ref(names[n - 1])->0;
                let i = first_entry(es, r)->0;
                assert(is_first_entry(es, r, i));
                assert(now[m] == es[i]);
                assert(0 <= n - 1 < n && 0 <= i < es.len() && now[m] == es[i] && parse_repo_ref(names[n - 1]) == Some(es[i].repo));
            }
        }
    }
}

/// The repositories listed for a repo-group follow the tracker's order of
/// its members: they are, member by member, the entry each one yields
/// (none for a member that does not read as `<ns>/<repo>` or that the
/// store lacks).
pub proof fn law_group_follows_member_order(names: Seq<Seq<char>>, es: Seq<RepoEntryView>, n: nat)
    requires
        n <= names.len(),
    ensures
        group_members_in(names, es, n) == names.take(n as int).filter_map(|name: Seq<char>| member_entry(es, name)),
    decreases n,
{
    let t = names.take(n as int);
    if n > 0 {
        law_group_follows_member_order(names, es, (n - 1) as nat);
        lemma_group_step(names, es, n);
        assert(t.drop_last() =~= names.take(n - 1));
        assert(t.last() == names[n - 1]);
        let f = |name: Seq<char>| member_entry(es, name);
        match member_entry(es, names[n - 1]) {
            Some(e) => {
                assert(t.filter_map(f) == t.drop_last().filter_map(f) + seq![e]);
                assert(group_members_in(names, es, (n - 1) as nat).push(e) =~= t.drop_last().filter_map(f) + seq![e]);
            },
            None => {},
        }
    } else {
        assert(t =~= Seq::<Seq<char>>::empty());
    }
}

} // verus!
