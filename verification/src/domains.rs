//! Domain layer: the identifiers of a Workspace and the rules that derive
//! paths, branch names, session names and labels from them. Pure.
use vstd::prelude::*;
use crate::text::{
    all_chars, chars_eq, chars_of, concat_chars, first_index, is_ascii_alnum, is_ascii_digit,
    is_first, lemma_first_index, lemma_no_first_index, split, split_chars, string_of, ascii_alnum,
    ascii_digit, views, starts_with, has_prefix,
};

verus! {

// ---------------------------------------------------------------------------
// Grammars of the identifiers
// ---------------------------------------------------------------------------

/// A user / organization name: ASCII letters, digits and `-`, starting with
/// a letter or digit (the GitHub rule).
pub open spec fn valid_user(s: Seq<char>) -> bool {
    &&& s.len() > 0
    &&& is_ascii_alnum(s[0])
    &&& forall|i: int| 0 <= i < s.len() ==> #[trigger] user_char(s[i])
}

/// A character of a user name.
pub open spec fn user_char(c: char) -> bool {
    is_ascii_alnum(c) || c == '-'
}

/// A character of a repository name.
pub open spec fn repo_char(c: char) -> bool {
    is_ascii_alnum(c) || c == '_' || c == '.' || c == '-'
}

/// A character of a paging cursor.
pub open spec fn cursor_char(c: char) -> bool {
    is_ascii_alnum(c) || c == '+' || c == '/' || c == '=' || c == '_' || c == '-'
}

/// A character of a host name.
pub open spec fn host_char(c: char) -> bool {
    is_ascii_alnum(c) || c == '.' || c == '-'
}

/// A repository name: ASCII letters, digits and `._-`, not starting with
/// `-`, not made of dots only.
pub open spec fn valid_repo_name(s: Seq<char>) -> bool {
    &&& s.len() > 0
    &&& s[0] != '-'
    &&& exists|i: int| 0 <= i < s.len() && #[trigger] s[i] != '.'
    &&& forall|i: int| 0 <= i < s.len() ==> #[trigger] repo_char(s[i])
}

/// An issue id: the opaque id a tracker issues (`42`, `CHH-111`): ASCII
/// letters, digits and `-`, starting with a letter or digit.
pub open spec fn valid_issue(s: Seq<char>) -> bool {
    valid_user(s)
}

/// A repo-group id: the same grammar as an issue id.
pub open spec fn valid_group(s: Seq<char>) -> bool {
    valid_user(s)
}

/// A paging cursor: ASCII letters, digits and `+/=_-`, starting with a
/// letter or digit.
pub open spec fn valid_cursor(s: Seq<char>) -> bool {
    &&& s.len() > 0
    &&& is_ascii_alnum(s[0])
    &&& forall|i: int| 0 <= i < s.len() ==> #[trigger] cursor_char(s[i])
}

/// A host name: ASCII letters, digits, `.` and `-`, starting with a letter
/// or digit.
pub open spec fn valid_host(s: Seq<char>) -> bool {
    &&& s.len() > 0
    &&& is_ascii_alnum(s[0])
    &&& forall|i: int| 0 <= i < s.len() ==> #[trigger] host_char(s[i])
}

/// A project number: digits only.
pub open spec fn valid_project(s: Seq<char>) -> bool {
    s.len() > 0 && forall|i: int| 0 <= i < s.len() ==> #[trigger] is_ascii_digit(s[i])
}

/// `<ns>/<repo>` read as a repository identifier: exactly one `/`, with a
/// valid user name before it and a valid repository name after it.
pub open spec fn parse_repo_ref(s: Seq<char>) -> Option<(Seq<char>, Seq<char>)> {
    let parts = split(s, '/');
    if parts.len() == 2 && valid_user(parts[0]) && valid_repo_name(parts[1]) {
        Some((parts[0], parts[1]))
    } else {
        None
    }
}

fn is_user_char(c: char) -> (b: bool)
    ensures
        b == user_char(c),
{
    ascii_alnum(c) || c == '-'
}

/// user: ASCII letters, digits and `-` (starting with a letter or digit).
pub fn is_valid_user(value: &str) -> (b: bool)
    ensures
        b == valid_user(value@),
{
    let cs = chars_of(value);
    valid_user_chars(&cs)
}

fn valid_user_chars(cs: &[char]) -> (b: bool)
    ensures
        b == valid_user(cs@),
{
    if cs.len() == 0 || !ascii_alnum(cs[0]) {
        return false;
    }
    let mut i: usize = 0;
    while i < cs.len()
        invariant
            i <= cs@.len(),
            forall|j: int| 0 <= j < i ==> #[trigger] user_char(cs@[j]),
        decreases cs.len() - i,
    {
        if !is_user_char(cs[i]) {
            assert(!user_char(cs@[i as int]));
            return false;
        }
        i = i + 1;
    }
    true
}

fn valid_repo_name_chars(cs: &[char]) -> (b: bool)
    ensures
        b == valid_repo_name(cs@),
{
    if cs.len() == 0 || cs[0] == '-' {
        return false;
    }
    let mut all_dots = true;
    let mut i: usize = 0;
    while i < cs.len()
        invariant
            i <= cs@.len(),
            forall|j: int| 0 <= j < i ==> #[trigger] repo_char(cs@[j]),
            all_dots == (forall|j: int| 0 <= j < i ==> #[trigger] cs@[j] == '.'),
        decreases cs.len() - i,
    {
        let c = cs[i];
        if !(ascii_alnum(c) || c == '_' || c == '.' || c == '-') {
            assert(!repo_char(cs@[i as int]));
            return false;
        }
        if c != '.' {
            all_dots = false;
        }
        i = i + 1;
    }
    if all_dots {
        assert(forall|j: int| 0 <= j < cs@.len() ==> #[trigger] cs@[j] == '.');
    }
    !all_dots
}

/// repository name: ASCII letters, digits and `._-` (not starting with `-`,
/// not dots only).
fn is_valid_repo_name(name: &str) -> (b: bool)
    ensures
        b == valid_repo_name(name@),
{
    let cs = chars_of(name);
    valid_repo_name_chars(&cs)
}

/// issue: ASCII letters, digits and `-`, starting with a letter or digit
/// (`main` has this form; the Workspace id `main` is read by
/// [`WorkspaceId::parse`]).
pub fn is_valid_issue(value: &str) -> (b: bool)
    ensures
        b == valid_issue(value@),
{
    is_valid_user(value)
}

/// group: the same grammar as an issue id.
pub fn is_valid_group(value: &str) -> (b: bool)
    ensures
        b == valid_group(value@),
{
    is_valid_user(value)
}

/// cursor: ASCII letters, digits and `+/=_-`, starting with a letter or digit.
pub fn is_valid_cursor(value: &str) -> (b: bool)
    ensures
        b == valid_cursor(value@),
{
    let cs = chars_of(value);
    if cs.len() == 0 || !ascii_alnum(cs[0]) {
        return false;
    }
    let mut i: usize = 0;
    while i < cs.len()
        invariant
            i <= cs@.len(),
            cs@ == value@,
            forall|j: int| 0 <= j < i ==> #[trigger] cursor_char(cs@[j]),
        decreases cs.len() - i,
    {
        let c = cs[i];
        if !(ascii_alnum(c) || c == '+' || c == '/' || c == '=' || c == '_' || c == '-') {
            assert(!cursor_char(cs@[i as int]));
            return false;
        }
        i = i + 1;
    }
    true
}

/// host: ASCII letters, digits, `.` and `-`, starting with a letter or digit.
pub fn is_valid_host(value: &str) -> (b: bool)
    ensures
        b == valid_host(value@),
{
    let cs = chars_of(value);
    if cs.len() == 0 || !ascii_alnum(cs[0]) {
        return false;
    }
    let mut i: usize = 0;
    while i < cs.len()
        invariant
            i <= cs@.len(),
            cs@ == value@,
            forall|j: int| 0 <= j < i ==> #[trigger] host_char(cs@[j]),
        decreases cs.len() - i,
    {
        let c = cs[i];
        if !(ascii_alnum(c) || c == '.' || c == '-') {
            assert(!host_char(cs@[i as int]));
            return false;
        }
        i = i + 1;
    }
    true
}

/// project: digits only.
pub fn is_valid_project(value: &str) -> (b: bool)
    ensures
        b == valid_project(value@),
{
    let cs = chars_of(value);
    if cs.len() == 0 {
        return false;
    }
    let mut i: usize = 0;
    while i < cs.len()
        invariant
            i <= cs@.len(),
            cs@ == value@,
            forall|j: int| 0 <= j < i ==> is_ascii_digit(#[trigger] cs@[j]),
        decreases cs.len() - i,
    {
        if !ascii_digit(cs[i]) {
            assert(!is_ascii_digit(cs@[i as int]));
            return false;
        }
        i = i + 1;
    }
    true
}

// ---------------------------------------------------------------------------
// RepoRef
// ---------------------------------------------------------------------------

/// The identifier of a repository: a namespace (user / organization) and a
/// repository name, kept apart. Reading `<ns>/<repo>` is its only
/// constructor and checks the form, so a badly formed one cannot exist.
pub struct RepoRef {
    ns: String,
    repo: String,
}

impl View for RepoRef {
    type V = (Seq<char>, Seq<char>);

    closed spec fn view(&self) -> (Seq<char>, Seq<char>) {
        (self.ns@, self.repo@)
    }
}

/// `<ns>/<repo>`.
pub open spec fn ns_repo_text(r: (Seq<char>, Seq<char>)) -> Seq<char> {
    r.0 + seq!['/'] + r.1
}

/// Both parts are well formed.
pub open spec fn valid_repo_ref(r: (Seq<char>, Seq<char>)) -> bool {
    valid_user(r.0) && valid_repo_name(r.1)
}

impl RepoRef {
    #[verifier::type_invariant]
    spec fn well_formed(self) -> bool {
        valid_user(self.ns@) && valid_repo_name(self.repo@)
    }

    /// Reads `<ns>/<repo>`; `None` when the text has not that form.
    pub fn parse(value: &str) -> (r: Option<RepoRef>)
        ensures
            match r {
                Some(x) => parse_repo_ref(value@) == Some(x@),
                None => parse_repo_ref(value@) is None,
            },
    {
        let cs = chars_of(value);
        let parts = split_chars(&cs, '/');
        proof {
            assert(views(parts@).len() == parts@.len());
        }
        if parts.len() == 2 {
            proof {
                assert(views(parts@)[0] == parts@[0]@);
                assert(views(parts@)[1] == parts@[1]@);
            }
            if valid_user_chars(&parts[0]) && valid_repo_name_chars(&parts[1]) {
                let r = RepoRef { ns: string_of(&parts[0]), repo: string_of(&parts[1]) };
                return Some(r);
            }
        }
        None
    }

    /// Reads a text already known to be `<ns>/<repo>`.
    pub fn from_parts(ns: &[char], repo: &[char]) -> (r: RepoRef)
        requires
            valid_user(ns@),
            valid_repo_name(repo@),
        ensures
            r@ == (ns@, repo@),
    {
        RepoRef { ns: string_of(ns), repo: string_of(repo) }
    }

    /// The namespace.
    pub fn ns(&self) -> (s: &str)
        ensures
            s@ == self@.0,
    {
        self.ns.as_str()
    }

    /// The repository name.
    pub fn repo(&self) -> (s: &str)
        ensures
            s@ == self@.1,
    {
        self.repo.as_str()
    }

    /// Every RepoRef has well formed parts.
    pub fn valid(&self)
        ensures
            valid_repo_ref(self@),
    {
        proof {
            use_type_invariant(self);
        }
    }

    /// The external form `<ns>/<repo>`.
    pub fn ns_repo(&self) -> (s: String)
        ensures
            s@ == ns_repo_text(self@),
    {
        let ns = chars_of(self.ns.as_str());
        let repo = chars_of(self.repo.as_str());
        let with_slash = concat_chars(&ns, &['/']);
        let all = concat_chars(&with_slash, &repo);
        string_of(&all)
    }

    /// A copy of this identifier.
    pub fn duplicate(&self) -> (r: RepoRef)
        ensures
            r@ == self@,
    {
        proof {
            use_type_invariant(self);
        }
        RepoRef { ns: string_of(&chars_of(self.ns.as_str())), repo: string_of(&chars_of(self.repo.as_str())) }
    }

    /// Both name the same repository.
    pub fn same(&self, other: &RepoRef) -> (b: bool)
        ensures
            b == (self@ == other@),
    {
        let a = chars_of(self.ns.as_str());
        let b = chars_of(other.ns.as_str());
        let c = chars_of(self.repo.as_str());
        let d = chars_of(other.repo.as_str());
        chars_eq(&a, &b) && chars_eq(&c, &d)
    }
}


// ---------------------------------------------------------------------------
// WorkspaceId
// ---------------------------------------------------------------------------

/// The word `main`.
pub open spec fn main_word() -> Seq<char> {
    seq!['m', 'a', 'i', 'n']
}

/// The id of a Workspace: `main` is the repository itself, anything else is
/// the issue whose worktree it is.
pub enum WorkspaceId {
    Main,
    Issue(String),
}

impl WorkspaceId {
    /// The text of the id.
    pub open spec fn text(&self) -> Seq<char> {
        match self {
            WorkspaceId::Main => main_word(),
            WorkspaceId::Issue(s) => s@,
        }
    }

    /// `main` is the repository itself; any other text names an issue.
    pub fn parse(raw: &str) -> (r: WorkspaceId)
        ensures
            raw@ == main_word() <==> r is Main,
            r.text() == raw@,
    {
        let cs = chars_of(raw);
        if chars_eq(&cs, &['m', 'a', 'i', 'n']) {
            assert(cs@ =~= main_word());
            WorkspaceId::Main
        } else {
            proof {
                assert(seq!['m', 'a', 'i', 'n'] =~= main_word());
            }
            WorkspaceId::Issue(string_of(&cs))
        }
    }

    /// The text of the id (`main` or the issue id).
    pub fn as_str(&self) -> (s: &str)
        ensures
            s@ == self.text(),
    {
        match self {
            WorkspaceId::Main => {
                let s = "main";
                proof {
                    reveal_strlit("main");
                }
                s
            },
            WorkspaceId::Issue(issue) => issue.as_str(),
        }
    }

    /// The id is `main`.
    pub fn is_main(&self) -> (b: bool)
        ensures
            b == (self is Main),
    {
        match self {
            WorkspaceId::Main => true,
            WorkspaceId::Issue(_) => false,
        }
    }

    /// A copy of this id.
    pub fn duplicate(&self) -> (r: WorkspaceId)
        ensures
            r.text() == self.text(),
            r is Main <==> self is Main,
    {
        match self {
            WorkspaceId::Main => WorkspaceId::Main,
            WorkspaceId::Issue(s) => WorkspaceId::Issue(string_of(&chars_of(s.as_str()))),
        }
    }
}

// ---------------------------------------------------------------------------
// Paths
// ---------------------------------------------------------------------------

/// What `Path::join` gives for texts: an absolute second part replaces the
/// first, an empty first part is dropped, and one `/` separates the parts.
pub open spec fn path_join(base: Seq<char>, rel: Seq<char>) -> Seq<char> {
    if rel.len() > 0 && rel[0] == '/' {
        rel
    } else if base.len() == 0 {
        rel
    } else if base.last() == '/' {
        base + rel
    } else {
        base + seq!['/'] + rel
    }
}

/// `Path::join`.
pub fn join_path(base: &[char], rel: &[char]) -> (r: Vec<char>)
    ensures
        r@ == path_join(base@, rel@),
{
    if rel.len() > 0 && rel[0] == '/' {
        crate::text::copy_chars(rel)
    } else if base.len() == 0 {
        crate::text::copy_chars(rel)
    } else if base[base.len() - 1] == '/' {
        concat_chars(base, rel)
    } else {
        let b = concat_chars(base, &['/']);
        concat_chars(&b, rel)
    }
}

/// `home` with `~/` removed from the front of `raw` replaced by it, as the
/// settings write paths.
pub open spec fn expand_tilde_text(home: Seq<char>, raw: Seq<char>) -> Seq<char> {
    if starts_with(raw, seq!['~', '/']) {
        path_join(home, raw.skip(2))
    } else {
        raw
    }
}

/// A piece of a path that names no component (empty, or `.`).
pub open spec fn skipped_piece(p: Seq<char>) -> bool {
    p.len() == 0 || p == seq!['.']
}

/// The last component among the first `n` pieces of a path.
pub open spec fn last_component(pieces: Seq<Seq<char>>, n: nat) -> Option<Seq<char>>
    decreases n,
{
    if n == 0 || n > pieces.len() {
        None
    } else if skipped_piece(pieces[n - 1]) {
        last_component(pieces, (n - 1) as nat)
    } else {
        Some(pieces[n - 1])
    }
}

/// What `Path::file_name` gives: the last component, none when the path
/// has none or ends in `..`.
pub open spec fn file_name_text(path: Seq<char>) -> Option<Seq<char>> {
    let pieces = split(path, '/');
    match last_component(pieces, pieces.len()) {
        Some(c) => if c == seq!['.', '.'] {
            None
        } else {
            Some(c)
        },
        None => None,
    }
}

/// `Path::file_name`.
pub fn file_name(path: &[char]) -> (r: Option<Vec<char>>)
    ensures
        match r {
            Some(c) => file_name_text(path@) == Some(c@),
            None => file_name_text(path@) is None,
        },
{
    let pieces = split_chars(path, '/');
    let ghost ps = views(pieces@);
    let mut n: usize = pieces.len();
    while n > 0
        invariant
            n <= pieces@.len(),
            ps == views(pieces@),
            ps == split(path@, '/'),
            last_component(ps, ps.len()) == last_component(ps, n as nat),
        decreases n,
    {
        let piece = &pieces[n - 1];
        assert(ps[n - 1] == piece@);
        let skip = piece.len() == 0 || (piece.len() == 1 && piece[0] == '.');
        assert(skip == skipped_piece(piece@)) by {
            if piece@.len() == 1 && piece@[0] == '.' {
                assert(piece@ =~= seq!['.']);
            }
        }
        if !skip {
            if piece.len() == 2 && piece[0] == '.' && piece[1] == '.' {
                assert(piece@ =~= seq!['.', '.']);
                return None;
            }
            assert(piece@ != seq!['.', '.']) by {
                if piece@ == seq!['.', '.'] {
                    assert(piece@.len() == 2);
                }
            }
            return Some(crate::text::copy_chars(piece));
        }
        n = n - 1;
    }
    None
}

/// The bases that paths are derived from, resolved once per command.
pub struct Paths {
    pub home: String,
    pub worktree_root: String,
}

/// One repository of the store: its identifier, the host it comes from, the
/// place of its clone and, where the settings say so, the tracker to ask.
pub struct RepoEntry {
    pub repo: RepoRef,
    pub host: String,
    pub clone_path: String,
    pub tracker: Option<String>,
}

/// What the library knows of a repository entry.
pub struct RepoEntryView {
    pub repo: (Seq<char>, Seq<char>),
    pub host: Seq<char>,
    pub clone_path: Seq<char>,
    pub tracker: Option<Seq<char>>,
}

impl View for RepoEntry {
    type V = RepoEntryView;

    open spec fn view(&self) -> RepoEntryView {
        RepoEntryView {
            repo: self.repo@,
            host: self.host@,
            clone_path: self.clone_path@,
            tracker: match self.tracker {
                Some(t) => Some(t@),
                None => None,
            },
        }
    }
}

impl RepoEntry {
    /// A copy of this entry.
    pub fn duplicate(&self) -> (r: RepoEntry)
        ensures
            r.repo@ == self.repo@,
            r.host@ == self.host@,
            r.clone_path@ == self.clone_path@,
            match (r.tracker, self.tracker) {
                (Some(a), Some(b)) => a@ == b@,
                (None, None) => true,
                _ => false,
            },
    {
        RepoEntry {
            repo: self.repo.duplicate(),
            host: crate::text::copy_string(&self.host),
            clone_path: crate::text::copy_string(&self.clone_path),
            tracker: match &self.tracker {
                Some(t) => Some(crate::text::copy_string(t)),
                None => None,
            },
        }
    }
}

/// `<home>/ghq/github.com/<ns>/<repo>`.
pub open spec fn ghq_path_text(home: Seq<char>, repo: (Seq<char>, Seq<char>)) -> Seq<char> {
    path_join(
        path_join(
            path_join(home, seq!['g', 'h', 'q', '/', 'g', 'i', 't', 'h', 'u', 'b', '.', 'c', 'o', 'm']),
            repo.0,
        ),
        repo.1,
    )
}

/// The clone of a github.com repository in the default ghq root.
pub fn ghq_path(home: &str, repo: &RepoRef) -> (p: String)
    ensures
        p@ == ghq_path_text(home@, repo@),
{
    let h = chars_of(home);
    let base = join_path(&h, &['g', 'h', 'q', '/', 'g', 'i', 't', 'h', 'u', 'b', '.', 'c', 'o', 'm']);
    let with_ns = join_path(&base, &chars_of(repo.ns()));
    let full = join_path(&with_ns, &chars_of(repo.repo()));
    string_of(&full)
}

/// The worktree of an issue: `<worktree root>/<host>/<ns>/<repo>/<id>`.
pub open spec fn worktree_path_text(
    worktree_root: Seq<char>,
    host: Seq<char>,
    repo: (Seq<char>, Seq<char>),
    issue: Seq<char>,
) -> Seq<char> {
    path_join(path_join(path_join(path_join(worktree_root, host), repo.0), repo.1), issue)
}

/// The directory of a Workspace: the clone itself for `main`, the issue's
/// worktree otherwise.
pub open spec fn workspace_path_text(
    worktree_root: Seq<char>,
    host: Seq<char>,
    clone_path: Seq<char>,
    repo: (Seq<char>, Seq<char>),
    id: Seq<char>,
    main: bool,
) -> Seq<char> {
    if main {
        clone_path
    } else {
        worktree_path_text(worktree_root, host, repo, id)
    }
}

/// The directory of a Workspace: the clone itself for `main`,
/// `<worktree root>/<host>/<ns>/<repo>/<id>` for an issue.
pub fn workspace_path(paths: &Paths, entry: &RepoEntry, id: &WorkspaceId) -> (p: String)
    ensures
        p@ == workspace_path_text(
            paths.worktree_root@,
            entry.host@,
            entry.clone_path@,
            entry.repo@,
            id.text(),
            id is Main,
        ),
{
    match id {
        WorkspaceId::Main => crate::text::copy_string(&entry.clone_path),
        WorkspaceId::Issue(issue) => {
            let root = chars_of(paths.worktree_root.as_str());
            let a = join_path(&root, &chars_of(entry.host.as_str()));
            let b = join_path(&a, &chars_of(entry.repo.ns()));
            let c = join_path(&b, &chars_of(entry.repo.repo()));
            let d = join_path(&c, &chars_of(issue.as_str()));
            string_of(&d)
        },
    }
}

// ---------------------------------------------------------------------------
// Names
// ---------------------------------------------------------------------------

/// `feature/<issue>`.
pub open spec fn branch_name_text(issue: Seq<char>) -> Seq<char> {
    seq!['f', 'e', 'a', 't', 'u', 'r', 'e', '/'] + issue
}

/// The branch of an issue's worktree.
pub fn branch_name(issue: &str) -> (b: String)
    ensures
        b@ == branch_name_text(issue@),
{
    let all = concat_chars(&['f', 'e', 'a', 't', 'u', 'r', 'e', '/'], &chars_of(issue));
    string_of(&all)
}

/// `<ns>.<repo>`.
pub open spec fn herdr_session_text(repo: (Seq<char>, Seq<char>)) -> Seq<char> {
    repo.0 + seq!['.'] + repo.1
}

/// The herdr session of a repository, `<ns>.<repo>`. Namespaces hold no
/// dot, so the first dot always separates the parts and the name is
/// one-to-one.
pub fn herdr_session_name(repo: &RepoRef) -> (s: String)
    ensures
        s@ == herdr_session_text(repo@),
{
    let a = concat_chars(&chars_of(repo.ns()), &['.']);
    let b = concat_chars(&a, &chars_of(repo.repo()));
    string_of(&b)
}

/// The label of a herdr workspace: the repository name for `main`, the
/// issue id otherwise.
pub open spec fn herdr_label_text(repo: (Seq<char>, Seq<char>), id: Seq<char>, main: bool) -> Seq<char> {
    if main {
        repo.1
    } else {
        id
    }
}

pub fn herdr_workspace_label(repo: &RepoRef, id: &WorkspaceId) -> (s: String)
    ensures
        s@ == herdr_label_text(repo@, id.text(), id is Main),
{
    match id {
        WorkspaceId::Main => string_of(&chars_of(repo.repo())),
        WorkspaceId::Issue(issue) => string_of(&chars_of(issue.as_str())),
    }
}

/// `s` with every `from` replaced by `to`.
pub open spec fn replace_char(s: Seq<char>, from: char, to: char) -> Seq<char> {
    Seq::new(s.len(), |i: int| if s[i] == from { to } else { s[i] })
}

fn replace_chars(s: &[char], from: char, to: char) -> (v: Vec<char>)
    ensures
        v@ == replace_char(s@, from, to),
{
    let mut v: Vec<char> = Vec::new();
    let mut i: usize = 0;
    while i < s.len()
        invariant
            i <= s@.len(),
            v@ =~= replace_char(s@.take(i as int), from, to),
        decreases s.len() - i,
    {
        if s[i] == from {
            v.push(to);
        } else {
            v.push(s[i]);
        }
        i = i + 1;
    }
    assert(s@.take(s@.len() as int) =~= s@);
    v
}

/// `<ns>_<repo>` with the dots of the repository name made `_`, and
/// `_<id>` after it for an issue (tmux silently turns `.` and `:` of
/// session names into `_`, so every separator is `_` there).
pub open spec fn tmux_session_text(repo: (Seq<char>, Seq<char>), id: Seq<char>, main: bool) -> Seq<char> {
    let key = repo.0 + seq!['_'] + replace_char(repo.1, '.', '_');
    if main {
        key
    } else {
        key + seq!['_'] + id
    }
}

pub fn tmux_session_name(repo: &RepoRef, id: &WorkspaceId) -> (s: String)
    ensures
        s@ == tmux_session_text(repo@, id.text(), id is Main),
{
    let a = concat_chars(&chars_of(repo.ns()), &['_']);
    let key = concat_chars(&a, &replace_chars(&chars_of(repo.repo()), '.', '_'));
    match id {
        WorkspaceId::Main => string_of(&key),
        WorkspaceId::Issue(issue) => {
            let b = concat_chars(&key, &['_']);
            let c = concat_chars(&b, &chars_of(issue.as_str()));
            string_of(&c)
        },
    }
}

// ---------------------------------------------------------------------------
// Laws of the identifiers
// ---------------------------------------------------------------------------

proof fn lemma_split_two(a: Seq<char>, b: Seq<char>)
    requires
        !a.contains('/'),
        !b.contains('/'),
    ensures
        split(a + seq!['/'] + b, '/') == seq![a, b],
{
    let s = a + seq!['/'] + b;
    assert(s[a.len() as int] == '/');
    assert forall|j: int| 0 <= j < a.len() implies s[j] != '/' by {
        assert(s[j] == a[j]);
    }
    lemma_first_index(s, '/', a.len() as int);
    assert(s.take(a.len() as int) =~= a);
    assert(s.skip(a.len() as int + 1) =~= b);
    assert forall|j: int| 0 <= j < b.len() implies b[j] != '/' by {
        assert(b.contains(b[j]) ==> b[j] != '/');
    }
    lemma_no_first_index(b, '/');
    assert(split(b, '/') == seq![b]);
    assert(split(s, '/') =~= seq![a, b]);
}

/// Reading back the external form `<ns>/<repo>` of a well formed
/// identifier gives the identifier.
pub proof fn law_ns_repo_reads_back(r: (Seq<char>, Seq<char>))
    requires
        valid_repo_ref(r),
    ensures
        parse_repo_ref(ns_repo_text(r)) == Some(r),
{
    assert(!r.0.contains('/')) by {
        if r.0.contains('/') {
            let j = choose|j: int| 0 <= j < r.0.len() && r.0[j] == '/';
            assert(user_char(r.0[j]));
        }
    }
    assert(!r.1.contains('/')) by {
        if r.1.contains('/') {
            let j = choose|j: int| 0 <= j < r.1.len() && r.1[j] == '/';
            assert(repo_char(r.1[j]));
        }
    }
    lemma_split_two(r.0, r.1);
}

/// What reads as an identifier is well formed, and its external form is
/// the text it was read from.
pub proof fn law_parse_gives_back_text(s: Seq<char>)
    requires
        parse_repo_ref(s) is Some,
    ensures
        valid_repo_ref(parse_repo_ref(s)->0),
        ns_repo_text(parse_repo_ref(s)->0) == s,
{
    let parts = split(s, '/');
    match first_index(s, '/') {
        Some(i) => {
            let i = choose|k: int| is_first(s, '/', k);
            assert(is_first(s, '/', i));
            let rest = s.skip(i + 1);
            assert(parts == seq![s.take(i)] + split(rest, '/'));
            match first_index(rest, '/') {
                Some(k) => {
                    let k = choose|m: int| is_first(rest, '/', m);
                    assert(is_first(rest, '/', k));
                    assert(split(rest, '/') == seq![rest.take(k)] + split(rest.skip(k + 1), '/'));
                    let tail = rest.skip(k + 1);
                    match first_index(tail, '/') {
                        Some(m) => {
                            let m = choose|q: int| is_first(tail, '/', q);
                            assert(is_first(tail, '/', m));
                        },
                        None => {},
                    }
                    assert(parts.len() > 2);
                },
                None => {
                    assert(split(rest, '/') == seq![rest]);
                    assert(s.take(i) + seq!['/'] + rest =~= s);
                },
            }
        },
        None => {
            assert(parts.len() == 1);
        },
    }
}

/// Distinct repositories get distinct herdr sessions: the namespace holds
/// no dot, so the first dot of `<ns>.<repo>` is the separator.
pub proof fn law_herdr_sessions_one_to_one(a: (Seq<char>, Seq<char>), b: (Seq<char>, Seq<char>))
    requires
        valid_repo_ref(a),
        valid_repo_ref(b),
        herdr_session_text(a) == herdr_session_text(b),
    ensures
        a == b,
{
    let sa = herdr_session_text(a);
    assert forall|j: int| 0 <= j < a.0.len() implies sa[j] != '.' by {
        assert(user_char(a.0[j]));
        assert(sa[j] == a.0[j]);
    }
    assert forall|j: int| 0 <= j < b.0.len() implies sa[j] != '.' by {
        assert(user_char(b.0[j]));
        assert(sa[j] == b.0[j]);
    }
    assert(sa[a.0.len() as int] == '.');
    assert(sa[b.0.len() as int] == '.');
    assert(a.0.len() == b.0.len());
    assert(a.0 =~= sa.take(a.0.len() as int));
    assert(b.0 =~= sa.take(b.0.len() as int));
    assert(a.1 =~= sa.skip(a.0.len() as int + 1));
    assert(b.1 =~= sa.skip(b.0.len() as int + 1));
}

/// A well formed issue id is safe in paths and on command lines: it holds
/// no `/` and no `.`, and does not begin with `-`.
pub proof fn law_issue_ids_are_path_safe(s: Seq<char>)
    requires
        valid_issue(s),
    ensures
        !s.contains('/'),
        !s.contains('.'),
        s[0] != '-',
{
    assert(!s.contains('/')) by {
        if s.contains('/') {
            let j = choose|j: int| 0 <= j < s.len() && s[j] == '/';
            assert(user_char(s[j]));
        }
    }
    assert(!s.contains('.')) by {
        if s.contains('.') {
            let j = choose|j: int| 0 <= j < s.len() && s[j] == '.';
            assert(user_char(s[j]));
        }
    }
}

/// Distinct issues get distinct branches.
pub proof fn law_branch_names_one_to_one(a: Seq<char>, b: Seq<char>)
    requires
        branch_name_text(a) == branch_name_text(b),
    ensures
        a == b,
{
    assert(a =~= branch_name_text(a).skip(8));
    assert(b =~= branch_name_text(b).skip(8));
}

} // verus!
