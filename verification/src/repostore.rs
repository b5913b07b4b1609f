//! The store of local repositories, read only. Two sources: `ghq` (any
//! host) and the `[[repo]]` entries of the settings for clones it does not
//! manage.
//!
//! A repository is known by `<ns>/<repo>`; the host is what the store
//! resolves. `<ns>/<repo>` is meant to be unique over all sources and
//! hosts: a duplicate is an error. Lines of a badly formed shape are
//! dropped.
use vstd::prelude::*;
use crate::text::{chars_of, lines, lines_of, split_once, split_once_chars, string_of, trim, trim_chars, views};
use crate::domains::{
    join_path, parse_repo_ref, path_join, valid_host, ns_repo_text, RepoEntry, RepoEntryView, RepoRef,
};
use crate::settings::{custom_repos, custom_repos_of, message, opt_text};

verus! {

/// The root of the clones: the first line of `ghq root` (trimmed) when it
/// says one, `<home>/ghq` otherwise.
pub open spec fn ghq_root_text(home: Seq<char>, output: Option<Seq<char>>) -> Seq<char> {
    let fallback = path_join(home, seq!['g', 'h', 'q']);
    match output {
        Some(out) => {
            let ls = lines(out);
            if ls.len() > 0 && trim(ls[0]).len() > 0 {
                trim(ls[0])
            } else {
                fallback
            }
        },
        None => fallback,
    }
}

/// The root of the ghq clones, from what `ghq root` printed (`None` when it
/// failed).
pub fn root(home: &str, ghq_root_output: Option<&str>) -> (p: String)
    ensures
        p@ == ghq_root_text(home@, opt_text(ghq_root_output)),
{
    if let Some(out) = ghq_root_output {
        let ls = lines_of(&chars_of(out));
        proof {
            assert(views(ls@).len() == ls@.len());
        }
        if ls.len() > 0 {
            assert(views(ls@)[0] == ls@[0]@);
            let first = trim_chars(&ls[0]);
            if first.len() > 0 {
                return string_of(&first);
            }
        }
    }
    string_of(&join_path(&chars_of(home), &['g', 'h', 'q']))
}

/// A line `<host>/<ns>/<repo>` of `ghq list` read as an entry; lines of
/// more segments (subgroups) fail the name check and give none.
pub open spec fn ghq_line_entry(root: Seq<char>, line: Seq<char>) -> Option<RepoEntryView> {
    match split_once(line, '/') {
        None => None,
        Some((host, rest)) => match split_once(rest, '/') {
            None => None,
            Some((ns, name)) => if !valid_host(host) {
                None
            } else {
                match parse_repo_ref(ns + seq!['/'] + name) {
                    None => None,
                    Some(repo) => Some(
                        RepoEntryView {
                            repo,
                            host,
                            clone_path: path_join(path_join(path_join(root, host), ns), name),
                            tracker: None,
                        },
                    ),
                }
            },
        },
    }
}

/// Reads one line of `ghq list`. ghq entries always use the default
/// tracker.
pub fn ghq_entry(root: &str, line: &[char]) -> (r: Option<RepoEntry>)
    ensures
        match r {
            Some(e) => ghq_line_entry(root@, line@) == Some(e@),
            None => ghq_line_entry(root@, line@) is None,
        },
{
    let (host, rest) = match split_once_chars(line, '/') {
        Some(p) => p,
        None => return None,
    };
    let (ns, name) = match split_once_chars(&rest, '/') {
        Some(p) => p,
        None => return None,
    };
    let host_text = string_of(&host);
    if !crate::domains::is_valid_host(host_text.as_str()) {
        return None;
    }
    let mut joined = crate::text::copy_chars(&ns);
    crate::text::append_chars(&mut joined, &['/']);
    crate::text::append_chars(&mut joined, &name);
    assert(joined@ =~= ns@ + seq!['/'] + name@);
    let repo = match RepoRef::parse(string_of(&joined).as_str()) {
        Some(r) => r,
        None => return None,
    };
    let a = join_path(&chars_of(root), &host);
    let b = join_path(&a, &ns);
    let c = join_path(&b, &name);
    Some(RepoEntry { repo, host: host_text, clone_path: string_of(&c), tracker: None })
}

/// The entries read from the first `n` lines of `ghq list`.
pub open spec fn ghq_entries_in(root: Seq<char>, ls: Seq<Seq<char>>, n: nat) -> Seq<RepoEntryView>
    decreases n,
{
    if n == 0 || n > ls.len() {
        Seq::empty()
    } else {
        let before = ghq_entries_in(root, ls, (n - 1) as nat);
        match ghq_line_entry(root, ls[n - 1]) {
            Some(e) => before.push(e),
            None => before,
        }
    }
}

/// The entries of what `ghq list` printed (none when it failed).
pub open spec fn ghq_entries_text(root: Seq<char>, output: Option<Seq<char>>) -> Seq<RepoEntryView> {
    match output {
        Some(out) => ghq_entries_in(root, lines(out), lines(out).len()),
        None => Seq::empty(),
    }
}

/// The views of a list of entries.
pub open spec fn entry_views(v: Seq<RepoEntry>) -> Seq<RepoEntryView> {
    Seq::new(v.len(), |i: int| v[i]@)
}

/// The entries of what `ghq list` printed, in its order.
pub fn ghq_entries(root: &str, ghq_list_output: Option<&str>) -> (r: Vec<RepoEntry>)
    ensures
        entry_views(r@) == ghq_entries_text(root@, opt_text(ghq_list_output)),
{
    let mut out: Vec<RepoEntry> = Vec::new();
    let text = match ghq_list_output {
        Some(t) => t,
        None => {
            assert(entry_views(out@) =~= Seq::<RepoEntryView>::empty());
            return out;
        },
    };
    let ls = lines_of(&chars_of(text));
    let ghost lv = views(ls@);
    let mut i: usize = 0;
    assert(entry_views(out@) =~= Seq::<RepoEntryView>::empty());
    while i < ls.len()
        invariant
            i <= ls@.len(),
            lv == views(ls@),
            lv == lines(text@),
            entry_views(out@) == ghq_entries_in(root@, lv, i as nat),
        decreases ls.len() - i,
    {
        assert(lv[i as int] == ls@[i as int]@);
        let ghost before = entry_views(out@);
        match ghq_entry(root, &ls[i]) {
            Some(e) => {
                out.push(e);
                assert(entry_views(out@) =~= before.push(e@));
            },
            None => {},
        }
        i = i + 1;
    }
    out
}

/// Every entry of the store: the ghq clones in ghq's order, then the
/// `[[repo]]` entries in the order of the settings.
pub open spec fn entries_of(
    home: Seq<char>,
    ghq_root_output: Option<Seq<char>>,
    ghq_list_output: Option<Seq<char>>,
    content: Option<Seq<char>>,
) -> Result<Seq<RepoEntryView>, Seq<char>> {
    match custom_repos_of(home, content) {
        Err(e) => Err(e),
        Ok(custom) => Ok(ghq_entries_text(ghq_root_text(home, ghq_root_output), ghq_list_output) + custom),
    }
}

/// Every entry of the store, from what `ghq root` and `ghq list` printed
/// and the settings file.
pub fn entries(
    home: &str,
    ghq_root_output: Option<&str>,
    ghq_list_output: Option<&str>,
    content: Option<&str>,
) -> (r: Result<Vec<RepoEntry>, String>)
    ensures
        match r {
            Ok(v) => entries_of(home@, opt_text(ghq_root_output), opt_text(ghq_list_output), opt_text(content))
                == Ok::<Seq<RepoEntryView>, Seq<char>>(entry_views(v@)),
            Err(e) => entries_of(home@, opt_text(ghq_root_output), opt_text(ghq_list_output), opt_text(content))
                == Err::<Seq<RepoEntryView>, Seq<char>>(e@),
        },
{
    let r = root(home, ghq_root_output);
    let mut all = ghq_entries(r.as_str(), ghq_list_output);
    let custom = match custom_repos(home, content) {
        Ok(c) => c,
        Err(e) => return Err(e),
    };
    let ghost first = entry_views(all@);
    let mut custom = custom;
    let ghost cv = Seq::new(custom@.len(), |k: int| custom@[k]@);
    assert(entry_views(custom@) =~= cv);
    all.append(&mut custom);
    assert(entry_views(all@) =~= first + cv);
    Ok(all)
}

/// The entries among the first `n` that carry this identifier.
pub open spec fn matching(es: Seq<RepoEntryView>, repo: (Seq<char>, Seq<char>), n: nat) -> Seq<RepoEntryView>
    decreases n,
{
    if n == 0 || n > es.len() {
        Seq::empty()
    } else {
        let before = matching(es, repo, (n - 1) as nat);
        if es[n - 1].repo == repo {
            before.push(es[n - 1])
        } else {
            before
        }
    }
}

/// The hosts of the entries, joined with `, `.
pub open spec fn host_list(ms: Seq<RepoEntryView>) -> Seq<char>
    decreases ms.len(),
{
    if ms.len() == 0 {
        Seq::empty()
    } else if ms.len() == 1 {
        ms[0].host
    } else {
        host_list(ms.drop_last()) + ", "@ + ms.last().host
    }
}

/// What looking a repository up in the entries gives: none, the one entry,
/// or the error naming the hosts it is found on.
pub open spec fn find_in(es: Seq<RepoEntryView>, repo: (Seq<char>, Seq<char>)) -> Result<Option<RepoEntryView>, Seq<char>> {
    let ms = matching(es, repo, es.len());
    if ms.len() == 0 {
        Ok(None)
    } else if ms.len() == 1 {
        Ok(Some(ms[0]))
    } else {
        Err("ambiguous repository: "@ + ns_repo_text(repo) + " ("@ + host_list(ms) + ")"@)
    }
}

/// Looks an identifier up in the entries. `Ok(None)`: not in the store
/// (issue lookups work without a local clone; the caller decides). A
/// duplicate over several hosts is an error.
pub fn find(entries: &[RepoEntry], repo: &RepoRef) -> (r: Result<Option<RepoEntry>, String>)
    ensures
        match r {
            Ok(Some(e)) => find_in(entry_views(entries@), repo@) == Ok::<Option<RepoEntryView>, Seq<char>>(Some(e@)),
            Ok(None) => find_in(entry_views(entries@), repo@) == Ok::<Option<RepoEntryView>, Seq<char>>(None),
            Err(e) => find_in(entry_views(entries@), repo@) == Err::<Option<RepoEntryView>, Seq<char>>(e@),
        },
{
    let ghost es = entry_views(entries@);
    let mut ms: Vec<RepoEntry> = Vec::new();
    let mut i: usize = 0;
    let n = entries.len();
    assert(entry_views(ms@) =~= Seq::<RepoEntryView>::empty());
    while i < n
        invariant
            i <= n,
            n == entries@.len(),
            es == entry_views(entries@),
            entry_views(ms@) == matching(es, repo@, i as nat),
        decreases n - i,
    {
        assert(es[i as int] == entries@[i as int]@);
        let ghost before = entry_views(ms@);
        if entries[i].repo.same(repo) {
            let e = entries[i].duplicate();
            ms.push(e);
            assert(entry_views(ms@) =~= before.push(es[i as int]));
        }
        i = i + 1;
    }
    let ghost mv = entry_views(ms@);
    if ms.len() == 0 {
        return Ok(None);
    }
    if ms.len() == 1 {
        assert(mv[0] == ms@[0]@);
        let e = ms.pop().unwrap();
        return Ok(Some(e));
    }
    let mut hosts = chars_of(ms[0].host.as_str());
    let mut k: usize = 1;
    assert(mv.subrange(0, 1).drop_last() =~= Seq::<RepoEntryView>::empty());
    assert(host_list(mv.subrange(0, 1)) == mv[0].host);
    while k < ms.len()
        invariant
            1 <= k <= ms@.len(),
            mv == entry_views(ms@),
            hosts@ == host_list(mv.subrange(0, k as int)),
        decreases ms.len() - k,
    {
        assert(mv[k as int] == ms@[k as int]@);
        crate::text::append_chars(&mut hosts, &chars_of(", "));
        crate::text::append_chars(&mut hosts, &chars_of(ms[k].host.as_str()));
        assert(mv.subrange(0, k + 1).drop_last() =~= mv.subrange(0, k as int));
        k = k + 1;
    }
    assert(mv.subrange(0, k as int) =~= mv);
    let mut m = chars_of("ambiguous repository: ");
    crate::text::append_chars(&mut m, &chars_of(repo.ns_repo().as_str()));
    crate::text::append_chars(&mut m, &chars_of(" ("));
    crate::text::append_chars(&mut m, &hosts);
    crate::text::append_chars(&mut m, &chars_of(")"));
    Err(string_of(&m))
}

/// The entry of a repository, which must be in the store (open and the
/// operations that need the clone itself).
pub open spec fn lookup_in(es: Seq<RepoEntryView>, repo: (Seq<char>, Seq<char>)) -> Result<RepoEntryView, Seq<char>> {
    match find_in(es, repo) {
        Err(e) => Err(e),
        Ok(Some(e)) => Ok(e),
        Ok(None) => Err("repository not found: "@ + ns_repo_text(repo)),
    }
}

/// `find` for the operations that need the clone: a repository not in the
/// store is an error.
pub fn lookup(entries: &[RepoEntry], repo: &RepoRef) -> (r: Result<RepoEntry, String>)
    ensures
        match r {
            Ok(e) => lookup_in(entry_views(entries@), repo@) == Ok::<RepoEntryView, Seq<char>>(e@),
            Err(e) => lookup_in(entry_views(entries@), repo@) == Err::<RepoEntryView, Seq<char>>(e@),
        },
{
    match find(entries, repo) {
        Err(e) => Err(e),
        Ok(Some(e)) => Ok(e),
        Ok(None) => Err(message("repository not found: ", &chars_of(repo.ns_repo().as_str()))),
    }
}


// ---------------------------------------------------------------------------
// Laws
// ---------------------------------------------------------------------------

proof fn lemma_matching_entries(es: Seq<RepoEntryView>, repo: (Seq<char>, Seq<char>), n: nat)
    ensures
        forall|k: int| 0 <= k < matching(es, repo, n).len() ==> (#[trigger] matching(es, repo, n)[k]).repo == repo
            && es.contains(matching(es, repo, n)[k]),
    decreases n,
{
    if n > 0 && n <= es.len() {
        lemma_matching_entries(es, repo, (n - 1) as nat);
        let before = matching(es, repo, (n - 1) as nat);
        assert forall|k: int| 0 <= k < matching(es, repo, n).len() implies (#[trigger] matching(es, repo, n)[k]).repo == repo
            && es.contains(matching(es, repo, n)[k]) by {
            if k < before.len() {
                assert(matching(es, repo, n)[k] == before[k]);
            } else {
                assert(matching(es, repo, n)[k] == es[n - 1]);
            }
        }
    }
}

/// Looking a repository up gives an entry of the store that carries
/// exactly that identifier.
pub proof fn law_lookup_gives_the_repository(es: Seq<RepoEntryView>, repo: (Seq<char>, Seq<char>))
    ensures
        find_in(es, repo) matches Ok(Some(e)) ==> e.repo == repo && es.contains(e),
        lookup_in(es, repo) matches Ok(e) ==> e.repo == repo && es.contains(e),
{
    lemma_matching_entries(es, repo, es.len());
}

} // verus!
