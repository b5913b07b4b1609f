//! The GitHub tracker plugins: what they read from their arguments and
//! from GitHub's answers (gh CLI output or GraphQL API responses), as the
//! tracker plugin contract asks. Talking to GitHub (gh, HTTP) is the
//! caller's; the answers are the library's values, printed by the caller.
use vstd::prelude::*;
use crate::text::{ascii_upper, chars_of, lines, lines_of, split, split_once, string_of, trim, views};
use crate::json::{array_field, array_items, bool_field, field, str_field, u64_field, Json};
use crate::settings::{message, opt_text};
use crate::tracker::{item_views, string_views, IssueItem, IssueItemView, IssueQuery};
use crate::cli::opt_view;
use crate::cli::flag_value_text;

verus! {

// ---------------------------------------------------------------------------
// Arguments
// ---------------------------------------------------------------------------

/// A required flag (the last occurrence wins; empty is missing).
pub open spec fn flag_text(args: Seq<Seq<char>>, name: Seq<char>) -> Result<Seq<char>, Seq<char>> {
    match flag_value_text(args, name) {
        Some(v) => Ok(v),
        None => Err(name + " required"@),
    }
}

/// An optional flag (the last occurrence wins; empty is missing).
pub fn optional_flag(args: &[String], name: &str) -> (r: Option<String>)
    ensures
        match r {
            Some(v) => flag_value_text(string_views(args@), name@) == Some(v@),
            None => flag_value_text(string_views(args@), name@) is None,
        },
{
    crate::cli::flag_value(args, name)
}

/// A required flag; missing is `<name> required`.
pub fn flag(args: &[String], name: &str) -> (r: Result<String, String>)
    ensures
        match r {
            Ok(v) => flag_text(string_views(args@), name@) == Ok::<Seq<char>, Seq<char>>(v@),
            Err(e) => flag_text(string_views(args@), name@) == Err::<Seq<char>, Seq<char>>(e@),
        },
{
    match optional_flag(args, name) {
        Some(v) => Ok(v),
        None => {
            let mut m = chars_of(name);
            crate::text::append_chars(&mut m, &chars_of(" required"));
            Err(string_of(&m))
        },
    }
}

/// The two GitHub tracker plugins: over the gh CLI, and over the GraphQL
/// API (which knows sub-issues and pages).
#[derive(Clone, Copy, Debug, PartialEq, Eq, Structural)]
pub enum Plugin {
    Gh,
    Api,
}

/// The verbs a plugin answers (`info-v0` lists them as its protocol).
pub open spec fn verbs_of(p: Plugin) -> Seq<Seq<char>> {
    match p {
        Plugin::Gh => seq!["list-repo-groups-v0"@, "repo-group-repos-v0"@, "list-issues-v0"@, "issue-v0"@, "info-v0"@],
        Plugin::Api => seq![
            "list-repo-groups-v0"@,
            "repo-group-repos-v0"@,
            "list-group-issues-v0"@,
            "list-issues-v0"@,
            "list-issues-v1"@,
            "list-issues-v2"@,
            "issue-v0"@,
            "info-v0"@,
        ],
    }
}

/// The verbs a plugin answers, in the order `info-v0` reports them.
pub fn protocol(p: Plugin) -> (r: Vec<String>)
    ensures
        string_views(r@) == verbs_of(p),
{
    let r = match p {
        Plugin::Gh => vec![
            "list-repo-groups-v0".to_owned(),
            "repo-group-repos-v0".to_owned(),
            "list-issues-v0".to_owned(),
            "issue-v0".to_owned(),
            "info-v0".to_owned(),
        ],
        Plugin::Api => vec![
            "list-repo-groups-v0".to_owned(),
            "repo-group-repos-v0".to_owned(),
            "list-group-issues-v0".to_owned(),
            "list-issues-v0".to_owned(),
            "list-issues-v1".to_owned(),
            "list-issues-v2".to_owned(),
            "issue-v0".to_owned(),
            "info-v0".to_owned(),
        ],
    };
    assert(string_views(r@) =~= verbs_of(p));
    r
}

/// The usage line a plugin answers to no verb or an unknown one.
pub open spec fn usage_text(p: Plugin) -> Seq<char> {
    match p {
        Plugin::Gh => "Usage: wsm-tracker-github <list-repo-groups-v0|repo-group-repos-v0|list-issues-v0|issue-v0|info-v0>"@,
        Plugin::Api => "Usage: wsm-tracker-github-api <list-repo-groups-v0|repo-group-repos-v0|list-group-issues-v0|list-issues-v0|list-issues-v1|list-issues-v2|issue-v0|info-v0>"@,
    }
}

/// The usage line of a plugin.
pub fn usage(p: Plugin) -> (s: String)
    ensures
        s@ == usage_text(p),
{
    match p {
        Plugin::Gh => "Usage: wsm-tracker-github <list-repo-groups-v0|repo-group-repos-v0|list-issues-v0|issue-v0|info-v0>".to_owned(),
        Plugin::Api => "Usage: wsm-tracker-github-api <list-repo-groups-v0|repo-group-repos-v0|list-group-issues-v0|list-issues-v0|list-issues-v1|list-issues-v2|issue-v0|info-v0>".to_owned(),
    }
}

/// A verb of the plugin contract that a plugin is asked, with its flags:
/// the repo-groups, a group's repositories, a group's issues (a page), a
/// repository's issues (by version; a parent and a page where the version
/// has them), one issue, or the self-diagnosis.
pub enum Verb {
    RepoGroups,
    GroupRepos(String),
    GroupIssues(String, Option<String>),
    Issues(IssueQuery, String, Option<String>, Option<String>),
    Issue(String, String),
    Info,
}

/// What the library knows of a verb.
pub enum VerbView {
    RepoGroups,
    GroupRepos(Seq<char>),
    GroupIssues(Seq<char>, Option<Seq<char>>),
    Issues(IssueQuery, Seq<char>, Option<Seq<char>>, Option<Seq<char>>),
    Issue(Seq<char>, Seq<char>),
    Info,
}

impl View for Verb {
    type V = VerbView;

    open spec fn view(&self) -> VerbView {
        match self {
            Verb::RepoGroups => VerbView::RepoGroups,
            Verb::GroupRepos(g) => VerbView::GroupRepos(g@),
            Verb::GroupIssues(g, c) => VerbView::GroupIssues(g@, opt_view(*c)),
            Verb::Issues(q, r, p, c) => VerbView::Issues(*q, r@, opt_view(*p), opt_view(*c)),
            Verb::Issue(r, i) => VerbView::Issue(r@, i@),
            Verb::Info => VerbView::Info,
        }
    }
}

/// The verb of a plugin's arguments: the first argument names it, the
/// flags follow; a required flag that is missing fails with
/// `<flag> required`, and no verb or one the plugin does not answer fails
/// with its usage line. Flags a version does not have are not read.
pub open spec fn verb_text(args: Seq<Seq<char>>, p: Plugin) -> Result<VerbView, Seq<char>> {
    if args.len() == 0 {
        Err(usage_text(p))
    } else {
        let v = args[0];
        let rest = args.drop_first();
        if v == "list-repo-groups-v0"@ {
            Ok(VerbView::RepoGroups)
        } else if v == "repo-group-repos-v0"@ {
            match flag_text(rest, "--group"@) {
                Ok(g) => Ok(VerbView::GroupRepos(g)),
                Err(e) => Err(e),
            }
        } else if p == Plugin::Api && v == "list-group-issues-v0"@ {
            match flag_text(rest, "--group"@) {
                Ok(g) => Ok(VerbView::GroupIssues(g, flag_value_text(rest, "--cursor"@))),
                Err(e) => Err(e),
            }
        } else if v == "list-issues-v0"@ || (p == Plugin::Api && (v == "list-issues-v1"@ || v == "list-issues-v2"@)) {
            match flag_text(rest, "--repo"@) {
                Err(e) => Err(e),
                Ok(r) => Ok(
                    if v == "list-issues-v0"@ {
                        VerbView::Issues(IssueQuery::V0, r, None, None)
                    } else if v == "list-issues-v1"@ {
                        VerbView::Issues(IssueQuery::V1, r, flag_value_text(rest, "--parent"@), None)
                    } else {
                        VerbView::Issues(
                            IssueQuery::V2,
                            r,
                            flag_value_text(rest, "--parent"@),
                            flag_value_text(rest, "--cursor"@),
                        )
                    },
                ),
            }
        } else if v == "issue-v0"@ {
            match flag_text(rest, "--repo"@) {
                Err(e) => Err(e),
                Ok(r) => match flag_text(rest, "--id"@) {
                    Err(e) => Err(e),
                    Ok(i) => Ok(VerbView::Issue(r, i)),
                },
            }
        } else if v == "info-v0"@ {
            Ok(VerbView::Info)
        } else {
            Err(usage_text(p))
        }
    }
}

/// Reads the verb a plugin is asked.
pub fn verb(args: &[String], p: Plugin) -> (r: Result<Verb, String>)
    ensures
        match r {
            Ok(v) => verb_text(string_views(args@), p) == Ok::<VerbView, Seq<char>>(v@),
            Err(e) => verb_text(string_views(args@), p) == Err::<VerbView, Seq<char>>(e@),
        },
{
    if args.len() == 0 {
        return Err(usage(p));
    }
    let ghost av = string_views(args@);
    let n = args.len();
    let rest = vstd::slice::slice_subrange(args, 1, n);
    assert(string_views(rest@) =~= av.drop_first());
    assert(av[0] == args@[0]@);
    let v = args[0].as_str();
    let api = match p {
        Plugin::Api => true,
        Plugin::Gh => false,
    };
    if crate::text::str_eq(v, "list-repo-groups-v0") {
        Ok(Verb::RepoGroups)
    } else if crate::text::str_eq(v, "repo-group-repos-v0") {
        match flag(rest, "--group") {
            Ok(g) => Ok(Verb::GroupRepos(g)),
            Err(e) => Err(e),
        }
    } else if api && crate::text::str_eq(v, "list-group-issues-v0") {
        match flag(rest, "--group") {
            Ok(g) => Ok(Verb::GroupIssues(g, optional_flag(rest, "--cursor"))),
            Err(e) => Err(e),
        }
    } else if crate::text::str_eq(v, "list-issues-v0") {
        match flag(rest, "--repo") {
            Ok(r) => Ok(Verb::Issues(IssueQuery::V0, r, None, None)),
            Err(e) => Err(e),
        }
    } else if api && crate::text::str_eq(v, "list-issues-v1") {
        match flag(rest, "--repo") {
            Ok(r) => Ok(Verb::Issues(IssueQuery::V1, r, optional_flag(rest, "--parent"), None)),
            Err(e) => Err(e),
        }
    } else if api && crate::text::str_eq(v, "list-issues-v2") {
        match flag(rest, "--repo") {
            Ok(r) => Ok(Verb::Issues(IssueQuery::V2, r, optional_flag(rest, "--parent"), optional_flag(rest, "--cursor"))),
            Err(e) => Err(e),
        }
    } else if crate::text::str_eq(v, "issue-v0") {
        match flag(rest, "--repo") {
            Err(e) => Err(e),
            Ok(r) => match flag(rest, "--id") {
                Err(e) => Err(e),
                Ok(i) => Ok(Verb::Issue(r, i)),
            },
        }
    } else if crate::text::str_eq(v, "info-v0") {
        Ok(Verb::Info)
    } else {
        Err(usage(p))
    }
}

/// The decimal value of a text of digits.
pub open spec fn digits_value(s: Seq<char>) -> nat
    decreases s.len(),
{
    if s.len() == 0 {
        0
    } else {
        digits_value(s.drop_last()) * 10 + ((s.last() as u32) - ('0' as u32)) as nat
    }
}

/// What `str::parse::<u64>` reads: an optional `+`, then one digit or
/// more, of a value that fits in 64 bits.
pub open spec fn u64_text(s: Seq<char>) -> Option<u64> {
    let digits = unsigned_digits(s);
    if digits.len() > 0 && all_digits(digits) && digits_value(digits) <= u64::MAX {
        Some(digits_value(digits) as u64)
    } else {
        None
    }
}

/// The digits of a number's text, after an optional `+`.
pub open spec fn unsigned_digits(s: Seq<char>) -> Seq<char> {
    if s.len() > 0 && s[0] == '+' {
        s.drop_first()
    } else {
        s
    }
}

/// Every character is an ASCII digit.
pub open spec fn all_digits(s: Seq<char>) -> bool {
    forall|i: int| 0 <= i < s.len() ==> crate::text::is_ascii_digit(#[trigger] s[i])
}

/// `str::parse::<u64>`.
pub fn parse_u64(s: &str) -> (r: Option<u64>)
    ensures
        r == u64_text(s@),
{
    let cs = chars_of(s);
    let start: usize = if cs.len() > 0 && cs[0] == '+' {
        1
    } else {
        0
    };
    let ghost digits = unsigned_digits(s@);
    assert(digits =~= cs@.skip(start as int));
    if start >= cs.len() {
        return None;
    }
    let mut value: u64 = 0;
    let mut i: usize = start;
    while i < cs.len()
        invariant
            start <= i <= cs@.len(),
            cs@ == s@,
            digits =~= cs@.skip(start as int),
            digits == unsigned_digits(s@),
            digits.len() > 0,
            value == digits_value(cs@.subrange(start as int, i as int)),
            forall|k: int| start <= k < i ==> crate::text::is_ascii_digit(#[trigger] cs@[k]),
        decreases cs.len() - i,
    {
        let c = cs[i];
        if !crate::text::ascii_digit(c) {
            assert(digits[i - start] == cs@[i as int]);
            assert(!crate::text::is_ascii_digit(digits[i - start]));
            assert(!all_digits(digits));
            return None;
        }
        let d = (c as u32 - '0' as u32) as u64;
        let ghost sub = cs@.subrange(start as int, i + 1);
        assert(sub.drop_last() =~= cs@.subrange(start as int, i as int));
        assert(sub.last() == c);
        if value > (u64::MAX - d) / 10 {
            proof {
                assert(digits_value(sub) == value * 10 + d);
                assert(digits_value(sub) > u64::MAX) by (nonlinear_arith)
                    requires
                        value > (u64::MAX - d) / 10,
                        digits_value(sub) == value * 10 + d,
                        d < 10,
                ;
                lemma_digits_grow(digits, (i + 1 - start) as nat);
                assert(digits.subrange(0, (i + 1 - start) as int) =~= sub);
            }
            return None;
        }
        value = value * 10 + d;
        i = i + 1;
    }
    assert(cs@.subrange(start as int, i as int) =~= digits);
    assert forall|j: int| 0 <= j < digits.len() implies crate::text::is_ascii_digit(#[trigger] digits[j]) by {
        assert(digits[j] == cs@[start + j]);
    }
    assert(all_digits(digits));
    Some(value)
}

/// A prefix of a text of digits never reads as more than the whole.
proof fn lemma_digits_grow(s: Seq<char>, n: nat)
    requires
        n <= s.len(),
    ensures
        digits_value(s.subrange(0, n as int)) <= digits_value(s),
    decreases s.len() - n,
{
    if n < s.len() {
        lemma_digits_grow(s, n + 1);
        let a = s.subrange(0, n as int);
        let b = s.subrange(0, (n + 1) as int);
        assert(b.drop_last() =~= a);
        assert(digits_value(a) <= digits_value(b)) by (nonlinear_arith)
            requires
                digits_value(b) == digits_value(a) * 10 + ((b.last() as u32) - ('0' as u32)) as nat,
        ;
    } else {
        assert(s.subrange(0, n as int) =~= s);
    }
}

/// An id given to a plugin must be a number: `Invalid <name>: <value>`
/// otherwise.
pub fn numeric(value: &str, name: &str) -> (r: Result<u64, String>)
    ensures
        match r {
            Ok(n) => u64_text(value@) == Some(n),
            Err(e) => u64_text(value@) is None
                && e@ == "Invalid "@ + name@ + ": "@ + value@ + " (GitHub の id は番号)"@,
        },
{
    match parse_u64(value) {
        Some(n) => Ok(n),
        None => {
            let mut m = chars_of("Invalid ");
            crate::text::append_chars(&mut m, &chars_of(name));
            crate::text::append_chars(&mut m, &chars_of(": "));
            crate::text::append_chars(&mut m, &chars_of(value));
            crate::text::append_chars(&mut m, &chars_of(" (GitHub の id は番号)"));
            Err(string_of(&m))
        },
    }
}

/// The owner and name of `<owner>/<name>` (split at the first `/`).
pub fn split_repo(repo: &str) -> (r: Result<(String, String), String>)
    ensures
        match r {
            Ok((a, b)) => split_once(repo@, '/') == Some((a@, b@)),
            Err(e) => split_once(repo@, '/') is None && e@ == "Invalid repo: "@ + repo@,
        },
{
    match crate::text::split_once_chars(&chars_of(repo), '/') {
        Some((a, b)) => Ok((string_of(&a), string_of(&b))),
        None => Err(message("Invalid repo: ", &chars_of(repo))),
    }
}

// ---------------------------------------------------------------------------
// Token scopes
// ---------------------------------------------------------------------------

/// The value of the `X-Oauth-Scopes` header in the first `n` lines of a
/// response (the first line of that name, compared without ASCII case),
/// trimmed.
pub open spec fn scopes_in(ls: Seq<Seq<char>>, n: nat) -> Option<Seq<char>>
    decreases n,
{
    if n == 0 || n > ls.len() {
        None
    } else {
        match scopes_in(ls, (n - 1) as nat) {
            Some(v) => Some(v),
            None => match split_once(ls[n - 1], ':') {
                Some((name, value)) => if ascii_upper(trim(name)) == "X-OAUTH-SCOPES"@ {
                    Some(trim(value))
                } else {
                    None
                },
                None => None,
            },
        }
    }
}

/// The token scopes a response lists (`X-Oauth-Scopes`), if it has the
/// header.
pub fn scopes_header(response: &str) -> (r: Option<String>)
    ensures
        match r {
            Some(v) => scopes_in(lines(response@), lines(response@).len()) == Some(v@),
            None => scopes_in(lines(response@), lines(response@).len()) is None,
        },
{
    let ls = lines_of(&chars_of(response));
    let ghost lv = views(ls@);
    let want = chars_of("X-OAUTH-SCOPES");
    let mut i: usize = 0;
    while i < ls.len()
        invariant
            i <= ls@.len(),
            lv == views(ls@),
            lv == lines(response@),
            want@ == "X-OAUTH-SCOPES"@,
            scopes_in(lv, i as nat) is None,
        decreases ls.len() - i,
    {
        assert(lv[i as int] == ls@[i as int]@);
        if let Some((name, value)) = crate::text::split_once_chars(&ls[i], ':') {
            let upper = crate::text::ascii_upper_chars(&crate::text::trim_chars(&name));
            if crate::text::chars_eq(&upper, &want) {
                let v = crate::text::trim_chars(&value);
                proof {
                    lemma_scopes_stay(lv, (i + 1) as nat, lv.len(), v@);
                }
                return Some(string_of(&v));
            }
        }
        i = i + 1;
    }
    None
}

proof fn lemma_scopes_stay(ls: Seq<Seq<char>>, n: nat, m: nat, v: Seq<char>)
    requires
        0 < n <= m <= ls.len(),
        scopes_in(ls, n) == Some(v),
    ensures
        scopes_in(ls, m) == Some(v),
    decreases m - n,
{
    if n < m {
        lemma_scopes_stay(ls, n, (m - 1) as nat, v);
    }
}

/// The scopes (comma separated) include `read:project`.
pub open spec fn has_read_project(scopes: Seq<char>) -> bool {
    let pieces = split(scopes, ',');
    exists|i: int| 0 <= i < pieces.len() && trim(#[trigger] pieces[i]) == "read:project"@
}

/// The diagnosis of a token: projects need `read:project`, and without it
/// queries come back empty without a word, so its absence is reported
/// with the fix. No header (fine-grained tokens) cannot be judged and
/// counts as ready.
pub open spec fn scope_diagnosis_text(scopes: Option<Seq<char>>) -> Option<Seq<char>> {
    match scopes {
        Some(s) => if has_read_project(s) {
            None
        } else {
            Some("gh token is missing scope read:project (run: gh auth refresh -h github.com -s read:project)"@)
        },
        None => None,
    }
}

/// What is wrong with a token's scopes, if anything.
pub fn scope_diagnosis(scopes: Option<&str>) -> (r: Option<String>)
    ensures
        match r {
            Some(d) => scope_diagnosis_text(opt_text(scopes)) == Some(d@),
            None => scope_diagnosis_text(opt_text(scopes)) is None,
        },
{
    let s = match scopes {
        Some(s) => s,
        None => return None,
    };
    let pieces = crate::text::split_chars(&chars_of(s), ',');
    let ghost pv = views(pieces@);
    let want = chars_of("read:project");
    let mut i: usize = 0;
    while i < pieces.len()
        invariant
            i <= pieces@.len(),
            pv == views(pieces@),
            pv == split(s@, ','),
            opt_text(scopes) == Some(s@),
            want@ == "read:project"@,
            forall|k: int| 0 <= k < i ==> trim(#[trigger] pv[k]) != "read:project"@,
        decreases pieces.len() - i,
    {
        assert(pv[i as int] == pieces@[i as int]@);
        if crate::text::chars_eq(&crate::text::trim_chars(&pieces[i]), &want) {
            assert(trim(pv[i as int]) == "read:project"@);
            return None;
        }
        i = i + 1;
    }
    Some("gh token is missing scope read:project (run: gh auth refresh -h github.com -s read:project)".to_owned())
}

/// The self check of the gh plugin from `gh api user -i`: not ready with
/// gh's message when gh failed, else the scope diagnosis of the response.
pub fn gh_info(response: Result<String, String>) -> (r: (bool, Option<String>))
    ensures
        match response {
            Err(m) => !r.0 && (r.1 matches Some(d) && d@ == m@),
            Ok(text) => {
                let d = scope_diagnosis_text(scopes_in(lines(text@), lines(text@).len()));
                r.0 == (d is None) && match r.1 {
                    Some(x) => d == Some(x@),
                    None => d is None,
                }
            },
        },
{
    match response {
        Err(m) => (false, Some(m)),
        Ok(text) => {
            let scopes = scopes_header(text.as_str());
            let d = match &scopes {
                Some(s) => scope_diagnosis(Some(s.as_str())),
                None => scope_diagnosis(None),
            };
            (d.is_none(), d)
        },
    }
}

/// The self check of the API plugin from the scopes header of `GET /user`
/// (`Err`: the request failed, with its message): ready when nothing is
/// wrong with the scopes.
pub fn api_info(scopes: Result<Option<String>, String>) -> (r: (bool, Option<String>))
    ensures
        match scopes {
            Err(m) => !r.0 && (r.1 matches Some(d) && d@ == m@),
            Ok(h) => {
                let d = scope_diagnosis_text(opt_view(h));
                r.0 == (d is None) && opt_view(r.1) == d
            },
        },
{
    match scopes {
        Err(m) => (false, Some(m)),
        Ok(h) => {
            let d = match &h {
                Some(x) => scope_diagnosis(Some(x.as_str())),
                None => scope_diagnosis(None),
            };
            (d.is_none(), d)
        },
    }
}

/// What a gh call answers: its output when it succeeded, else
/// `gh <verb> failed: <its trimmed stderr>` (`verb`: its first argument).
pub open spec fn gh_answer_text(verb: Seq<char>, succeeded: bool, stdout: Seq<char>, stderr: Seq<char>) -> Result<Seq<char>, Seq<char>> {
    if succeeded {
        Ok(stdout)
    } else {
        Err("gh "@ + verb + " failed: "@ + trim(stderr))
    }
}

/// What a gh call answers, given whether it succeeded and what it printed.
pub fn gh_answer(verb: &str, succeeded: bool, stdout: String, stderr: &str) -> (r: Result<String, String>)
    ensures
        match r {
            Ok(o) => gh_answer_text(verb@, succeeded, stdout@, stderr@) == Ok::<Seq<char>, Seq<char>>(o@),
            Err(e) => gh_answer_text(verb@, succeeded, stdout@, stderr@) == Err::<Seq<char>, Seq<char>>(e@),
        },
{
    if succeeded {
        return Ok(stdout);
    }
    let mut m = chars_of(verb);
    crate::text::append_chars(&mut m, &chars_of(" failed: "));
    crate::text::append_chars(&mut m, &crate::text::trim_chars(&chars_of(stderr)));
    assert("gh "@ + m@ =~= "gh "@ + verb@ + " failed: "@ + trim(stderr@));
    Err(message("gh ", &m))
}

/// The API token that `gh auth token` lends: its trimmed output; failing
/// with gh's trimmed stderr when gh failed, or when the token is empty,
/// each with the fix (`gh auth login`).
pub open spec fn token_text(succeeded: bool, stdout: Seq<char>, stderr: Seq<char>) -> Result<Seq<char>, Seq<char>> {
    if !succeeded {
        Err("gh auth token failed: "@ + trim(stderr) + " (run: gh auth login)"@)
    } else if trim(stdout).len() == 0 {
        Err("gh auth token returned an empty token (run: gh auth login)"@)
    } else {
        Ok(trim(stdout))
    }
}

/// The API token, given whether `gh auth token` succeeded and what it
/// printed.
pub fn token(succeeded: bool, stdout: &str, stderr: &str) -> (r: Result<String, String>)
    ensures
        match r {
            Ok(t) => token_text(succeeded, stdout@, stderr@) == Ok::<Seq<char>, Seq<char>>(t@),
            Err(e) => token_text(succeeded, stdout@, stderr@) == Err::<Seq<char>, Seq<char>>(e@),
        },
{
    if !succeeded {
        let mut m = crate::text::trim_chars(&chars_of(stderr));
        crate::text::append_chars(&mut m, &chars_of(" (run: gh auth login)"));
        assert("gh auth token failed: "@ + m@ =~= "gh auth token failed: "@ + trim(stderr@) + " (run: gh auth login)"@);
        return Err(message("gh auth token failed: ", &m));
    }
    let t = crate::text::trim_chars(&chars_of(stdout));
    if t.len() == 0 {
        return Err("gh auth token returned an empty token (run: gh auth login)".to_owned());
    }
    Ok(string_of(&t))
}

/// Where the API plugin talks to GitHub: `WSM_TRACKER_GITHUB_API_URL` when
/// set and not empty, else `https://api.github.com`.
pub fn api_url(env: Option<&str>) -> (r: String)
    ensures
        r@ == match opt_text(env) {
            Some(u) if u.len() > 0 => u,
            _ => "https://api.github.com"@,
        },
{
    match env {
        Some(u) => if chars_of(u).len() > 0 {
            u.to_owned()
        } else {
            "https://api.github.com".to_owned()
        },
        None => "https://api.github.com".to_owned(),
    }
}

// ---------------------------------------------------------------------------
// GitHub's answers
// ---------------------------------------------------------------------------

/// A project or issue node read as `(id, title)`: its number (as decimal
/// text) and its title.
pub open spec fn numbered_of(node: Json) -> Option<(Seq<char>, Seq<char>)> {
    match (u64_field(node, "number"@), str_field(node, "title"@)) {
        (Some(n), Some(t)) => Some((crate::json::decimal_text(n as nat), t)),
        _ => None,
    }
}

/// The open projects among the first `n` nodes, as repo-groups.
pub open spec fn open_projects_in(nodes: Seq<Json>, n: nat) -> Seq<(Seq<char>, Seq<char>)>
    decreases n,
{
    if n == 0 || n > nodes.len() {
        Seq::empty()
    } else {
        let before = open_projects_in(nodes, (n - 1) as nat);
        if bool_field(nodes[n - 1], "closed"@) == Some(true) {
            before
        } else {
            match numbered_of(nodes[n - 1]) {
                Some(g) => before.push(g),
                None => before,
            }
        }
    }
}

fn numbered(node: &Json) -> (r: Option<(String, String)>)
    ensures
        match r {
            Some((a, b)) => numbered_of(*node) == Some((a@, b@)),
            None => numbered_of(*node) is None,
        },
{
    match (node.u64_at("number"), node.str_at("title")) {
        (Some(n), Some(t)) => Some((crate::json::decimal(n), t.to_owned())),
        _ => None,
    }
}

/// The repo-groups of a list of project nodes: the ones not closed, as
/// `(id, title)` with the project number as id.
pub fn open_projects(nodes: &[Json]) -> (r: Vec<(String, String)>)
    ensures
        crate::worktree::string_pairs(r@) == open_projects_in(nodes@, nodes@.len()),
{
    let mut out: Vec<(String, String)> = Vec::new();
    let n = nodes.len();
    let mut i: usize = 0;
    assert(crate::worktree::string_pairs(out@) =~= Seq::<(Seq<char>, Seq<char>)>::empty());
    while i < n
        invariant
            i <= n,
            n == nodes@.len(),
            crate::worktree::string_pairs(out@) == open_projects_in(nodes@, i as nat),
        decreases n - i,
    {
        let ghost before = crate::worktree::string_pairs(out@);
        if nodes[i].bool_at("closed") != Some(true) {
            if let Some((a, b)) = numbered(&nodes[i]) {
                out.push((a, b));
                assert(crate::worktree::string_pairs(out@) =~= before.push((a@, b@)));
            }
        }
        i = i + 1;
    }
    out
}

/// An issue node has an open child (`subIssues.nodes[].state == "OPEN"`).
pub open spec fn has_open_child(node: Json) -> bool {
    match field(node, "subIssues"@) {
        Some(sub) => match array_field(sub, "nodes"@) {
            Some(children) => exists|i: int| 0 <= i < children.len()
                && str_field(#[trigger] children[i], "state"@) == Some("OPEN"@),
            None => false,
        },
        None => false,
    }
}

/// The repository an issue node names (`repository.nameWithOwner`).
pub open spec fn repo_name_of(node: Json) -> Option<Seq<char>> {
    match field(node, "repository"@) {
        Some(r) => str_field(r, "nameWithOwner"@),
        None => None,
    }
}

fn repo_name(node: &Json) -> (r: Option<String>)
    ensures
        opt_view(r) == repo_name_of(*node),
{
    match node.get("repository") {
        Some(r) => match r.str_at("nameWithOwner") {
            Some(n) => Some(n.to_owned()),
            None => None,
        },
        None => None,
    }
}

/// An issue node read as an item of the contract: its number as id, its
/// title, `has_children` (an open child exists, since the lists hold open
/// issues only) for hierarchical answers only, and the repository it
/// names, if it names one (sub-issues may live in another repository).
pub open spec fn issue_node_of(node: Json, hierarchical: bool) -> Option<IssueItemView> {
    match numbered_of(node) {
        Some((id, title)) => Some(
            IssueItemView { id, title, has_children: hierarchical && has_open_child(node), repo: repo_name_of(node) },
        ),
        None => None,
    }
}

/// Reads an issue node of GitHub's answer as an item of the contract.
pub fn issue_node(node: &Json, hierarchical: bool) -> (r: Option<IssueItem>)
    ensures
        match r {
            Some(item) => issue_node_of(*node, hierarchical) == Some(item@),
            None => issue_node_of(*node, hierarchical) is None,
        },
{
    let (id, title) = match numbered(node) {
        Some(p) => p,
        None => return None,
    };
    let repo = repo_name(node);
    if !hierarchical {
        return Some(IssueItem { id, title, has_children: false, repo });
    }
    let children = match node.get("subIssues") {
        Some(sub) => match sub.array_at("nodes") {
            Some(c) => c,
            None => return Some(IssueItem { id, title, has_children: false, repo }),
        },
        None => return Some(IssueItem { id, title, has_children: false, repo }),
    };
    let mut k: usize = 0;
    while k < children.len()
        invariant
            k <= children@.len(),
            hierarchical,
            numbered_of(*node) == Some((id@, title@)),
            opt_view(repo) == repo_name_of(*node),
            field(*node, "subIssues"@) matches Some(sub) && array_field(sub, "nodes"@) == Some(children@),
            forall|j: int| 0 <= j < k ==> str_field(#[trigger] children@[j], "state"@) != Some("OPEN"@),
        decreases children.len() - k,
    {
        if let Some(state) = children[k].str_at("state") {
            if crate::text::str_eq(state, "OPEN") {
                assert(str_field(children@[k as int], "state"@) == Some("OPEN"@));
                assert(has_open_child(*node));
                return Some(IssueItem { id, title, has_children: true, repo });
            }
        }
        k = k + 1;
    }
    Some(IssueItem { id, title, has_children: false, repo })
}

/// The page after a connection of GitHub's answer: `pageInfo.endCursor`
/// while `pageInfo.hasNextPage` holds; none on the last page.
pub open spec fn next_page_of(connection: Json) -> Option<Seq<char>> {
    match field(connection, "pageInfo"@) {
        Some(info) => if bool_field(info, "hasNextPage"@) == Some(true) {
            str_field(info, "endCursor"@)
        } else {
            None
        },
        None => None,
    }
}

/// The cursor of the page after a connection (`None`: the last page).
pub fn next_page(connection: &Json) -> (r: Option<String>)
    ensures
        opt_view(r) == next_page_of(*connection),
{
    match connection.get("pageInfo") {
        Some(info) => if info.bool_at("hasNextPage") == Some(true) {
            match info.str_at("endCursor") {
                Some(c) => Some(c.to_owned()),
                None => None,
            }
        } else {
            None
        },
        None => None,
    }
}

/// A project item as an issue of a repo-group: its content must be an
/// open issue that names its repository (drafts and pull requests, and
/// closed issues, are no issues of the group).
pub open spec fn project_item_of(item: Json) -> Option<IssueItemView> {
    match field(item, "content"@) {
        Some(c) => if str_field(c, "state"@) == Some("OPEN"@) && repo_name_of(c) is Some {
            issue_node_of(c, true)
        } else {
            None
        },
        None => None,
    }
}

/// The issues of the first `n` project items, in order.
pub open spec fn project_items_in(items: Seq<Json>, n: nat) -> Seq<IssueItemView>
    decreases n,
{
    if n == 0 || n > items.len() {
        Seq::empty()
    } else {
        match project_item_of(items[n - 1]) {
            Some(x) => project_items_in(items, (n - 1) as nat).push(x),
            None => project_items_in(items, (n - 1) as nat),
        }
    }
}

/// The issues of a repo-group from its project items, across
/// repositories, in order.
pub fn project_items(items: &[Json]) -> (r: Vec<IssueItem>)
    ensures
        item_views(r@) == project_items_in(items@, items@.len()),
{
    let mut out: Vec<IssueItem> = Vec::new();
    let n = items.len();
    let mut i: usize = 0;
    assert(item_views(out@) =~= Seq::<IssueItemView>::empty());
    while i < n
        invariant
            i <= n,
            n == items@.len(),
            item_views(out@) == project_items_in(items@, i as nat),
        decreases n - i,
    {
        let ghost before = item_views(out@);
        if let Some(c) = items[i].get("content") {
            let open = match c.str_at("state") {
                Some(st) => crate::text::str_eq(st, "OPEN"),
                None => false,
            };
            let named = match c.get("repository") {
                Some(r) => r.str_at("nameWithOwner").is_some(),
                None => false,
            };
            if open && named {
                if let Some(x) = issue_node(c, true) {
                    out.push(x);
                    assert(item_views(out@) =~= before.push(x@));
                }
            }
        }
        i = i + 1;
    }
    out
}

/// The repositories named among the first `n` nodes (`nameWithOwner`).
pub open spec fn repo_names_in(nodes: Seq<Json>, n: nat) -> Seq<Seq<char>>
    decreases n,
{
    if n == 0 || n > nodes.len() {
        Seq::empty()
    } else {
        match str_field(nodes[n - 1], "nameWithOwner"@) {
            Some(r) => repo_names_in(nodes, (n - 1) as nat).push(r),
            None => repo_names_in(nodes, (n - 1) as nat),
        }
    }
}

/// The repositories of a repo-group from its repository nodes, in order.
pub fn repo_names(nodes: &[Json]) -> (r: Vec<String>)
    ensures
        string_views(r@) == repo_names_in(nodes@, nodes@.len()),
{
    let mut out: Vec<String> = Vec::new();
    let n = nodes.len();
    let mut i: usize = 0;
    assert(string_views(out@) =~= Seq::<Seq<char>>::empty());
    while i < n
        invariant
            i <= n,
            n == nodes@.len(),
            string_views(out@) == repo_names_in(nodes@, i as nat),
        decreases n - i,
    {
        let ghost before = string_views(out@);
        if let Some(name) = nodes[i].str_at("nameWithOwner") {
            out.push(name.to_owned());
            assert(string_views(out@) =~= before.push(name@));
        }
        i = i + 1;
    }
    out
}

/// The state of an issue in the contract's neutral words: `CLOSED` is
/// `closed`, anything else `open`; the answer must have a title and a
/// state (`<prefix>missing title`, `<prefix>missing state` otherwise).
pub open spec fn issue_answer_text(v: Json, prefix: Seq<char>) -> Result<(Seq<char>, Seq<char>), Seq<char>> {
    match str_field(v, "title"@) {
        None => Err(prefix + "missing title"@),
        Some(title) => match str_field(v, "state"@) {
            None => Err(prefix + "missing state"@),
            Some(state) => Ok((title, if state == "CLOSED"@ {
                "closed"@
            } else {
                "open"@
            })),
        },
    }
}

/// Reads a single issue (title and state) from GitHub's answer; `prefix`
/// names the source in errors (`unexpected gh output: ` or
/// `unexpected API response: `).
pub fn issue_answer(v: &Json, prefix: &str) -> (r: Result<(String, String), String>)
    ensures
        match r {
            Ok((t, s)) => issue_answer_text(*v, prefix@) == Ok::<(Seq<char>, Seq<char>), Seq<char>>((t@, s@)),
            Err(e) => issue_answer_text(*v, prefix@) == Err::<(Seq<char>, Seq<char>), Seq<char>>(e@),
        },
{
    let title = match v.str_at("title") {
        Some(t) => t,
        None => {
            let mut m = chars_of(prefix);
            crate::text::append_chars(&mut m, &chars_of("missing title"));
            return Err(string_of(&m));
        },
    };
    let state = match v.str_at("state") {
        Some(s) => s,
        None => {
            let mut m = chars_of(prefix);
            crate::text::append_chars(&mut m, &chars_of("missing state"));
            return Err(string_of(&m));
        },
    };
    let word = if crate::text::str_eq(state, "CLOSED") {
        "closed".to_owned()
    } else {
        "open".to_owned()
    };
    Ok((title.to_owned(), word))
}

/// The messages of the first `n` errors that have one, joined with ` / `.
pub open spec fn error_messages(errors: Seq<Json>, n: nat) -> Seq<Seq<char>>
    decreases n,
{
    if n == 0 || n > errors.len() {
        Seq::empty()
    } else {
        match str_field(errors[n - 1], "message"@) {
            Some(m) => error_messages(errors, (n - 1) as nat).push(m),
            None => error_messages(errors, (n - 1) as nat),
        }
    }
}

/// Texts joined with a separator.
pub open spec fn joined(parts: Seq<Seq<char>>, sep: Seq<char>) -> Seq<char>
    decreases parts.len(),
{
    if parts.len() == 0 {
        Seq::empty()
    } else if parts.len() == 1 {
        parts[0]
    } else {
        joined(parts.drop_last(), sep) + sep + parts.last()
    }
}

/// A GraphQL response with a non-empty `errors` array fails, with their
/// messages; no partial answer is given.
pub open spec fn graphql_error_text(body: Json) -> Option<Seq<char>> {
    match array_field(body, "errors"@) {
        Some(errors) => if errors.len() > 0 {
            Some("GitHub API errors: "@ + joined(error_messages(errors, errors.len()), " / "@))
        } else {
            None
        },
        None => None,
    }
}

/// The error of a GraphQL response, if it reports any.
pub fn graphql_error(body: &Json) -> (r: Option<String>)
    ensures
        match r {
            Some(e) => graphql_error_text(*body) == Some(e@),
            None => graphql_error_text(*body) is None,
        },
{
    let errors = match body.array_at("errors") {
        Some(e) => e,
        None => return None,
    };
    if errors.len() == 0 {
        return None;
    }
    let mut msgs: Vec<String> = Vec::new();
    let mut i: usize = 0;
    assert(string_views(msgs@) =~= Seq::<Seq<char>>::empty());
    while i < errors.len()
        invariant
            i <= errors@.len(),
            string_views(msgs@) == error_messages(errors@, i as nat),
        decreases errors.len() - i,
    {
        let ghost before = string_views(msgs@);
        if let Some(m) = errors[i].str_at("message") {
            msgs.push(m.to_owned());
            assert(string_views(msgs@) =~= before.push(m@));
        }
        i = i + 1;
    }
    let ghost mv = string_views(msgs@);
    let mut text: Vec<char> = Vec::new();
    let mut k: usize = 0;
    assert(joined(mv.subrange(0, 0), " / "@) == Seq::<char>::empty());
    while k < msgs.len()
        invariant
            k <= msgs@.len(),
            mv == string_views(msgs@),
            text@ == joined(mv.subrange(0, k as int), " / "@),
        decreases msgs.len() - k,
    {
        assert(mv[k as int] == msgs@[k as int]@);
        if k > 0 {
            crate::text::append_chars(&mut text, &chars_of(" / "));
        }
        crate::text::append_chars(&mut text, &chars_of(msgs[k].as_str()));
        let ghost sub = mv.subrange(0, k + 1);
        assert(sub.drop_last() =~= mv.subrange(0, k as int));
        assert(text@ =~= joined(sub, " / "@));
        k = k + 1;
    }
    assert(mv.subrange(0, k as int) =~= mv);
    Some(message("GitHub API errors: ", &text))
}


/// Which issue nodes a list keeps: all of them (flat lists), those without
/// a parent (the top level), or the open ones (the children of a parent).
#[derive(Clone, Copy, Debug, PartialEq, Eq, Structural)]
pub enum NodeFilter {
    All,
    TopLevel,
    Open,
}

/// A node passes the filter.
pub open spec fn node_kept(node: Json, filter: NodeFilter) -> bool {
    match filter {
        NodeFilter::All => true,
        NodeFilter::TopLevel => crate::json::null_field(node, "parent"@),
        NodeFilter::Open => str_field(node, "state"@) == Some("OPEN"@),
    }
}

/// The items among the first `n` nodes that pass the filter and read as
/// issues.
pub open spec fn issue_list_in(nodes: Seq<Json>, hierarchical: bool, filter: NodeFilter, n: nat) -> Seq<IssueItemView>
    decreases n,
{
    if n == 0 || n > nodes.len() {
        Seq::empty()
    } else {
        let before = issue_list_in(nodes, hierarchical, filter, (n - 1) as nat);
        if node_kept(nodes[n - 1], filter) {
            match issue_node_of(nodes[n - 1], hierarchical) {
                Some(x) => before.push(x),
                None => before,
            }
        } else {
            before
        }
    }
}

/// The issue items of a list of nodes, in order.
pub fn issue_list(nodes: &[Json], hierarchical: bool, filter: NodeFilter) -> (r: Vec<IssueItem>)
    ensures
        item_views(r@) == issue_list_in(nodes@, hierarchical, filter, nodes@.len()),
{
    let mut out: Vec<IssueItem> = Vec::new();
    let n = nodes.len();
    let mut i: usize = 0;
    assert(item_views(out@) =~= Seq::<IssueItemView>::empty());
    while i < n
        invariant
            i <= n,
            n == nodes@.len(),
            item_views(out@) == issue_list_in(nodes@, hierarchical, filter, i as nat),
        decreases n - i,
    {
        let ghost before = item_views(out@);
        let kept = match filter {
            NodeFilter::All => true,
            NodeFilter::TopLevel => nodes[i].null_at("parent"),
            NodeFilter::Open => match nodes[i].str_at("state") {
                Some(st) => crate::text::str_eq(st, "OPEN"),
                None => false,
            },
        };
        if kept {
            if let Some(x) = issue_node(&nodes[i], hierarchical) {
                out.push(x);
                assert(item_views(out@) =~= before.push(x@));
            }
        }
        i = i + 1;
    }
    out
}

/// The owner of the repo-groups: `WSM_TRACKER_GITHUB_OWNER` when set and
/// not empty, else the authenticated user (`login`, trimmed), which must
/// not be empty.
pub open spec fn owner_text(env_owner: Option<Seq<char>>, login: Result<Seq<char>, Seq<char>>) -> Result<Seq<char>, Seq<char>> {
    match env_owner {
        Some(o) if o.len() > 0 => Ok(o),
        _ => match login {
            Err(e) => Err(e),
            Ok(l) => if trim(l).len() > 0 {
                Ok(trim(l))
            } else {
                Err("failed to resolve GitHub user"@)
            },
        },
    }
}

/// The owner of the repo-groups, given the environment override and what
/// resolving the authenticated user answered.
pub fn owner(env_owner: Option<&str>, login: Result<String, String>) -> (r: Result<String, String>)
    ensures
        match r {
            Ok(o) => owner_text(opt_text(env_owner), match login {
                Ok(l) => Ok(l@),
                Err(e) => Err(e@),
            }) == Ok::<Seq<char>, Seq<char>>(o@),
            Err(e) => owner_text(opt_text(env_owner), match login {
                Ok(l) => Ok(l@),
                Err(e) => Err(e@),
            }) == Err::<Seq<char>, Seq<char>>(e@),
        },
{
    if let Some(o) = env_owner {
        if chars_of(o).len() > 0 {
            return Ok(o.to_owned());
        }
    }
    match login {
        Err(e) => Err(e),
        Ok(l) => {
            let t = crate::text::trim_chars(&chars_of(l.as_str()));
            if t.len() > 0 {
                Ok(string_of(&t))
            } else {
                Err("failed to resolve GitHub user".to_owned())
            }
        },
    }
}


// ---------------------------------------------------------------------------
// Laws
// ---------------------------------------------------------------------------

proof fn lemma_decimal_digits(n: nat)
    ensures
        all_digits(crate::json::decimal_text(n)),
        digits_value(crate::json::decimal_text(n)) == n,
        crate::json::decimal_text(n).len() > 0,
        crate::json::decimal_text(n)[0] != '+',
    decreases n,
{
    let t = crate::json::decimal_text(n);
    if n < 10 {
        assert(t.drop_last() =~= Seq::<char>::empty());
        assert(digits_value(t.drop_last()) == 0);
    } else {
        lemma_decimal_digits(n / 10);
        let head = crate::json::decimal_text(n / 10);
        assert(t.drop_last() =~= head);
        assert(t.last() == crate::json::digit_char(n % 10));
        assert(((t.last() as u32) - ('0' as u32)) as nat == n % 10);
        assert(digits_value(t) == (n / 10) * 10 + n % 10);
        assert(t[0] == head[0]);
        assert forall|i: int| 0 <= i < t.len() implies crate::text::is_ascii_digit(#[trigger] t[i]) by {
            if i < head.len() {
                assert(t[i] == head[i]);
            }
        }
    }
}

/// Ids go out as the decimal text of GitHub's numbers and come back as
/// arguments: reading the text of a number gives the number back.
pub proof fn law_numbers_read_back(n: u64)
    ensures
        u64_text(crate::json::decimal_text(n as nat)) == Some(n),
{
    lemma_decimal_digits(n as nat);
    assert(unsigned_digits(crate::json::decimal_text(n as nat)) == crate::json::decimal_text(n as nat));
}

/// A missing flag is never mistaken for an unknown verb: the error names
/// the flag.
proof fn lemma_flag_error_is_no_usage(rest: Seq<Seq<char>>, name: Seq<char>, p: Plugin)
    requires
        name.len() > 0,
        name[0] == '-',
    ensures
        flag_text(rest, name) != Err::<Seq<char>, Seq<char>>(usage_text(p)),
{
    reveal_strlit("Usage: wsm-tracker-github <list-repo-groups-v0|repo-group-repos-v0|list-issues-v0|issue-v0|info-v0>");
    reveal_strlit("Usage: wsm-tracker-github-api <list-repo-groups-v0|repo-group-repos-v0|list-group-issues-v0|list-issues-v0|list-issues-v1|list-issues-v2|issue-v0|info-v0>");
    if let Err(e) = flag_text(rest, name) {
        assert(e == name + " required"@);
        assert(e[0] == '-');
        assert(usage_text(p)[0] == 'U');
    }
}

/// What a plugin reports as its protocol (`info-v0`) is exactly what it
/// answers: a verb of the protocol is never refused with the usage line,
/// whatever its flags, and any other verb is.
pub proof fn law_protocol_lists_the_answered_verbs(p: Plugin, v: Seq<char>, rest: Seq<Seq<char>>)
    ensures
        verbs_of(p).contains(v) <==> verb_text(seq![v] + rest, p) != Err::<VerbView, Seq<char>>(usage_text(p)),
{
    let args = seq![v] + rest;
    assert(args[0] == v);
    assert(args.drop_first() =~= rest);
    reveal_strlit("--group");
    reveal_strlit("--repo");
    reveal_strlit("--id");
    lemma_flag_error_is_no_usage(rest, "--group"@, p);
    lemma_flag_error_is_no_usage(rest, "--repo"@, p);
    lemma_flag_error_is_no_usage(rest, "--id"@, p);
    let vs = verbs_of(p);
    if vs.contains(v) {
        let i = choose|i: int| 0 <= i < vs.len() && vs[i] == v;
        assert(vs[i] == v);
    } else {
        assert(vs[0] == "list-repo-groups-v0"@);
        assert(vs[1] == "repo-group-repos-v0"@);
        match p {
            Plugin::Gh => {
                assert(vs[2] == "list-issues-v0"@);
                assert(vs[3] == "issue-v0"@);
                assert(vs[4] == "info-v0"@);
            },
            Plugin::Api => {
                assert(vs[2] == "list-group-issues-v0"@);
                assert(vs[3] == "list-issues-v0"@);
                assert(vs[4] == "list-issues-v1"@);
                assert(vs[5] == "list-issues-v2"@);
                assert(vs[6] == "issue-v0"@);
                assert(vs[7] == "info-v0"@);
            },
        }
    }
}

/// Every issue of a repo-group names the repository it lives in (the
/// server drops the ones that do not).
pub proof fn law_group_issues_name_their_repository(items: Seq<Json>, n: nat)
    ensures
        forall|i: int| 0 <= i < project_items_in(items, n).len() ==> (#[trigger] project_items_in(items, n)[i]).repo is Some,
    decreases n,
{
    if n > 0 && n <= items.len() {
        law_group_issues_name_their_repository(items, (n - 1) as nat);
        let before = project_items_in(items, (n - 1) as nat);
        if let Some(x) = project_item_of(items[n - 1]) {
            assert(x.repo is Some);
            assert forall|i: int| 0 <= i < project_items_in(items, n).len() implies (#[trigger] project_items_in(items, n)[i]).repo is Some by {
                if i < before.len() {
                    assert(project_items_in(items, n)[i] == before[i]);
                }
            }
        }
    }
}

/// An issue node read with hierarchy has children exactly when one of
/// its sub-issues, at whatever position, is `OPEN`; closed sub-issues
/// alone give none, and a flat reading never has children.
pub proof fn law_open_sub_issue_means_children(node: Json, sub: Json, children: Seq<Json>)
    requires
        numbered_of(node) is Some,
        field(node, "subIssues"@) == Some(sub),
        array_field(sub, "nodes"@) == Some(children),
    ensures
        issue_node_of(node, true) is Some,
        issue_node_of(node, true)->0.has_children <==> exists|i: int|
            0 <= i < children.len() && str_field(#[trigger] children[i], "state"@) == Some("OPEN"@),
        !issue_node_of(node, false)->0.has_children,
        numbered_of(node) == Some((issue_node_of(node, true)->0.id, issue_node_of(node, true)->0.title)),
{
}

/// A node without sub-issues (no `subIssues`, or no `nodes` array in it)
/// has no children.
pub proof fn law_no_sub_issues_no_children(node: Json, hierarchical: bool)
    requires
        numbered_of(node) is Some,
        !(field(node, "subIssues"@) matches Some(sub) && array_field(sub, "nodes"@) is Some),
    ensures
        issue_node_of(node, hierarchical) is Some,
        !issue_node_of(node, hierarchical)->0.has_children,
{
}

} // verus!
