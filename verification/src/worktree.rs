//! The worktree role (`git worktree`): the working trees of issue
//! Workspaces. `main` uses the clone itself, so this role is not involved
//! there. The library builds the git arguments and reads git's answers;
//! running git is the caller's.
use vstd::prelude::*;
use crate::text::{chars_of, lines, lines_of, string_of, strip_prefix, strip_prefix_chars, views};
use crate::tracker::string_views;

verus! {

/// The state of the reading after the first `n` lines of
/// `git worktree list --porcelain`: the path of the worktree being read
/// (if its block is open) and the (path, issue) pairs found so far.
pub open spec fn scan_worktrees(ls: Seq<Seq<char>>, n: nat) -> (Option<Seq<char>>, Seq<(Seq<char>, Seq<char>)>)
    decreases n,
{
    if n == 0 || n > ls.len() {
        (None, Seq::empty())
    } else {
        let (current, found) = scan_worktrees(ls, (n - 1) as nat);
        let line = ls[n - 1];
        match strip_prefix(line, "worktree "@) {
            Some(path) => (Some(path), found),
            None => match strip_prefix(line, "branch refs/heads/feature/"@) {
                Some(issue) => (
                    None,
                    match current {
                        Some(path) => found.push((path, issue)),
                        None => found,
                    },
                ),
                None => if line.len() == 0 {
                    (None, found)
                } else {
                    (current, found)
                },
            },
        }
    }
}

/// The (worktree path, issue id) pairs of the `feature/<id>` branches in
/// `git worktree list --porcelain`.
pub open spec fn feature_worktrees(porcelain: Seq<char>) -> Seq<(Seq<char>, Seq<char>)> {
    scan_worktrees(lines(porcelain), lines(porcelain).len()).1
}

/// The views of a list of string pairs.
pub open spec fn string_pairs(v: Seq<(String, String)>) -> Seq<(Seq<char>, Seq<char>)> {
    Seq::new(v.len(), |i: int| (v[i].0@, v[i].1@))
}

/// Reads `git worktree list --porcelain`: the (worktree path, issue id)
/// pairs of the worktrees on a `feature/<id>` branch, in order.
pub fn parse_feature_worktrees(porcelain: &str) -> (r: Vec<(String, String)>)
    ensures
        string_pairs(r@) == feature_worktrees(porcelain@),
{
    let ls = lines_of(&chars_of(porcelain));
    let ghost lv = views(ls@);
    let worktree_word = chars_of("worktree ");
    let branch_word = chars_of("branch refs/heads/feature/");
    let mut current: Option<Vec<char>> = None;
    let mut found: Vec<(String, String)> = Vec::new();
    let mut i: usize = 0;
    assert(string_pairs(found@) =~= Seq::<(Seq<char>, Seq<char>)>::empty());
    while i < ls.len()
        invariant
            i <= ls@.len(),
            lv == views(ls@),
            lv == lines(porcelain@),
            worktree_word@ == "worktree "@,
            branch_word@ == "branch refs/heads/feature/"@,
            scan_worktrees(lv, i as nat).1 == string_pairs(found@),
            scan_worktrees(lv, i as nat).0 == match current {
                Some(p) => Some(p@),
                None => None::<Seq<char>>,
            },
        decreases ls.len() - i,
    {
        let line = &ls[i];
        assert(lv[i as int] == line@);
        let ghost before = string_pairs(found@);
        match strip_prefix_chars(line, &worktree_word) {
            Some(path) => {
                current = Some(path);
            },
            None => match strip_prefix_chars(line, &branch_word) {
                Some(issue) => {
                    match current {
                        Some(p) => {
                            found.push((string_of(&p), string_of(&issue)));
                            assert(string_pairs(found@) =~= before.push((p@, issue@)));
                        },
                        None => {},
                    }
                    current = None;
                },
                None => {
                    if line.len() == 0 {
                        current = None;
                    }
                },
            },
        }
        i = i + 1;
    }
    found
}

/// The arguments that ask whether `branch` exists in the clone.
pub fn branch_exists_args(clone_path: &str, branch: &str) -> (r: Vec<String>)
    ensures
        string_views(r@) == seq![
            "-C"@,
            clone_path@,
            "show-ref"@,
            "--verify"@,
            "--quiet"@,
            "refs/heads/"@ + branch@,
        ],
{
    let mut refname = chars_of("refs/heads/");
    crate::text::append_chars(&mut refname, &chars_of(branch));
    let r = vec![
        "-C".to_owned(),
        clone_path.to_owned(),
        "show-ref".to_owned(),
        "--verify".to_owned(),
        "--quiet".to_owned(),
        string_of(&refname),
    ];
    assert(string_views(r@) =~= seq![
        "-C"@,
        clone_path@,
        "show-ref"@,
        "--verify"@,
        "--quiet"@,
        "refs/heads/"@ + branch@,
    ]);
    r
}

/// The arguments that create the worktree: on the branch when it exists,
/// creating the branch otherwise. `--relative-paths` keeps host absolute
/// paths out of the worktree, for containers that mount it.
pub fn add_args(clone_path: &str, branch: &str, worktree_path: &str, branch_exists: bool) -> (r: Vec<String>)
    ensures
        string_views(r@) == if branch_exists {
            seq!["-C"@, clone_path@, "worktree"@, "add"@, "--relative-paths"@, worktree_path@, branch@]
        } else {
            seq!["-C"@, clone_path@, "worktree"@, "add"@, "--relative-paths"@, "-b"@, branch@, worktree_path@]
        },
{
    let mut r = vec![
        "-C".to_owned(),
        clone_path.to_owned(),
        "worktree".to_owned(),
        "add".to_owned(),
        "--relative-paths".to_owned(),
    ];
    if branch_exists {
        r.push(worktree_path.to_owned());
        r.push(branch.to_owned());
        assert(string_views(r@) =~= seq!["-C"@, clone_path@, "worktree"@, "add"@, "--relative-paths"@, worktree_path@, branch@]);
    } else {
        r.push("-b".to_owned());
        r.push(branch.to_owned());
        r.push(worktree_path.to_owned());
        assert(string_views(r@) =~= seq!["-C"@, clone_path@, "worktree"@, "add"@, "--relative-paths"@, "-b"@, branch@, worktree_path@]);
    }
    r
}

/// What adding a worktree answers: done, or the error of the case that
/// failed (adding on an existing branch, or creating one).
pub open spec fn add_result(branch_exists: bool, created: bool) -> Result<(), Seq<char>> {
    if created {
        Ok(())
    } else if branch_exists {
        Err("Failed to add worktree"@)
    } else {
        Err("Failed to create worktree"@)
    }
}

/// The result of `git worktree add`, given whether the branch existed and
/// whether git succeeded.
pub fn add(branch_exists: bool, created: bool) -> (r: Result<(), String>)
    ensures
        match r {
            Ok(()) => add_result(branch_exists, created) == Ok::<(), Seq<char>>(()),
            Err(e) => add_result(branch_exists, created) == Err::<(), Seq<char>>(e@),
        },
{
    if created {
        Ok(())
    } else if branch_exists {
        Err("Failed to add worktree".to_owned())
    } else {
        Err("Failed to create worktree".to_owned())
    }
}

/// The arguments that remove a worktree (idempotent: git fails quietly
/// when there is none, and the failure is ignored).
pub fn remove(clone_path: &str, worktree_path: &str) -> (r: Vec<String>)
    ensures
        string_views(r@) == seq!["-C"@, clone_path@, "worktree"@, "remove"@, worktree_path@],
{
    let r = vec![
        "-C".to_owned(),
        clone_path.to_owned(),
        "worktree".to_owned(),
        "remove".to_owned(),
        worktree_path.to_owned(),
    ];
    assert(string_views(r@) =~= seq!["-C"@, clone_path@, "worktree"@, "remove"@, worktree_path@]);
    r
}

/// The arguments that list the worktrees of a clone (porcelain).
pub fn list_porcelain(clone_path: &str) -> (r: Vec<String>)
    ensures
        string_views(r@) == seq!["-C"@, clone_path@, "worktree"@, "list"@, "--porcelain"@],
{
    let r = vec![
        "-C".to_owned(),
        clone_path.to_owned(),
        "worktree".to_owned(),
        "list".to_owned(),
        "--porcelain".to_owned(),
    ];
    assert(string_views(r@) =~= seq!["-C"@, clone_path@, "worktree"@, "list"@, "--porcelain"@]);
    r
}

} // verus!
