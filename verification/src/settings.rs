//! Settings: `config.toml` (top-level `key = "value"` lines and
//! `[[table]]` sections, a subset of TOML) and environment overrides.
//! Precedence: environment > settings file > built-in default.
//!
//! The library reads texts: the caller hands in the content of the settings
//! file (`None` when it cannot be read) and the values of the environment
//! variables.
use vstd::prelude::*;
use crate::text::{
    chars_eq, chars_of, copy_chars, is_ascii_digit, is_ascii_lower, lines, lines_of, split_once,
    split_once_chars, strip_prefix, strip_prefix_chars, string_of, trim, trim_chars, trim_start,
    trim_start_chars, views, ascii_digit, ascii_lower, lemma_views_push,
};
use crate::domains::{expand_tilde_text, path_join, join_path, RepoEntry};

verus! {

// ---------------------------------------------------------------------------
// Lines of the settings file
// ---------------------------------------------------------------------------

/// `key = "value"` (spaces around `=` allowed, anything after the closing
/// quote ignored) read as the value, for a line that begins with `key`.
pub open spec fn config_line_value(line: Seq<char>, key: Seq<char>) -> Option<Seq<char>> {
    match strip_prefix(line, key) {
        None => None,
        Some(a) => match strip_prefix(trim_start(a), seq!['=']) {
            None => None,
            Some(b) => match strip_prefix(trim_start(b), seq!['"']) {
                None => None,
                Some(c) => match split_once(c, '"') {
                    None => None,
                    Some((value, _)) => Some(value),
                },
            },
        },
    }
}

/// `key = "value"` read as the value (spaces and a trailing comment allowed).
pub fn parse_config_line(line: &[char], key: &[char]) -> (r: Option<Vec<char>>)
    ensures
        match r {
            Some(v) => config_line_value(line@, key@) == Some(v@),
            None => config_line_value(line@, key@) is None,
        },
{
    match strip_prefix_chars(line, key) {
        None => None,
        Some(a0) => {
            let a = trim_start_chars(&a0);
            let eq = vec!['='];
            assert(eq@ =~= seq!['=']);
            match strip_prefix_chars(&a, &eq) {
                None => None,
                Some(b0) => {
                    let b = trim_start_chars(&b0);
                    let quote = vec!['"'];
                    assert(quote@ =~= seq!['"']);
                    match strip_prefix_chars(&b, &quote) {
                        None => None,
                        Some(c) => match split_once_chars(&c, '"') {
                            Some((value, rest)) => {
                                assert(strip_prefix(line@, key@) == Some(a0@));
                                assert(strip_prefix(trim_start(a0@), seq!['=']) == Some(b0@));
                                assert(strip_prefix(trim_start(b0@), seq!['"']) == Some(c@));
                                assert(split_once(c@, '"') == Some((value@, rest@)));
                                Some(value)
                            },
                            None => None,
                        },
                    }
                },
            }
        },
    }
}

/// The value of the first line that sets `key`.
pub open spec fn first_config_value(ls: Seq<Seq<char>>, key: Seq<char>) -> Option<Seq<char>>
    decreases ls.len(),
{
    if ls.len() == 0 {
        None
    } else {
        match config_line_value(ls[0], key) {
            Some(v) => Some(v),
            None => first_config_value(ls.drop_first(), key),
        }
    }
}

/// The top-level value of `key` in the settings file: the first line that
/// sets it.
pub open spec fn config_value_text(content: Option<Seq<char>>, key: Seq<char>) -> Option<Seq<char>> {
    match content {
        None => None,
        Some(c) => first_config_value(lines(c), key),
    }
}

/// Where the settings file is: `<XDG_CONFIG_HOME>/wsm/config.toml` when the
/// variable is set (even empty), `<home>/.config/wsm/config.toml`
/// otherwise.
pub open spec fn config_file_text(home: Seq<char>, xdg_config_home: Option<Seq<char>>) -> Seq<char> {
    let base = match xdg_config_home {
        Some(x) => x,
        None => path_join(home, ".config"@),
    };
    path_join(base, "wsm/config.toml"@)
}

/// The path of the settings file.
pub fn config_file(home: &str, xdg_config_home: Option<&str>) -> (p: String)
    ensures
        p@ == config_file_text(home@, opt_text(xdg_config_home)),
{
    let base = match xdg_config_home {
        Some(x) => chars_of(x),
        None => join_path(&chars_of(home), &chars_of(".config")),
    };
    string_of(&join_path(&base, &chars_of("wsm/config.toml")))
}

/// The top-level value of `key` in the settings file (the first match).
pub fn config_value(content: Option<&str>, key: &str) -> (r: Option<String>)
    ensures
        match r {
            Some(v) => config_value_text(opt_text(content), key@) == Some(v@),
            None => config_value_text(opt_text(content), key@) is None,
        },
{
    let text = match content {
        Some(t) => t,
        None => return None,
    };
    let cs = chars_of(text);
    let k = chars_of(key);
    let ls = lines_of(&cs);
    let mut i: usize = 0;
    assert(views(ls@).skip(0) =~= views(ls@));
    while i < ls.len()
        invariant
            i <= ls@.len(),
            views(ls@) == lines(text@),
            opt_text(content) == Some(text@),
            k@ == key@,
            first_config_value(views(ls@), key@) == first_config_value(
                views(ls@).skip(i as int),
                key@,
            ),
        decreases ls.len() - i,
    {
        let ghost rest = views(ls@).skip(i as int);
        assert(rest[0] == ls@[i as int]@);
        assert(rest.drop_first() =~= views(ls@).skip(i + 1));
        match parse_config_line(&ls[i], &k) {
            Some(v) => {
                assert(first_config_value(rest, key@) == Some(v@));
                return Some(string_of(&v));
            },
            None => {},
        }
        i = i + 1;
    }
    assert(views(ls@).skip(i as int) =~= Seq::<Seq<char>>::empty());
    None
}

/// The text of an optional text.
pub open spec fn opt_text(s: Option<&str>) -> Option<Seq<char>> {
    match s {
        Some(t) => Some(t@),
        None => None,
    }
}

/// An environment override counts only when it is not empty.
pub open spec fn override_text(s: Option<&str>) -> Option<Seq<char>> {
    match s {
        Some(t) => if t@.len() > 0 {
            Some(t@)
        } else {
            None
        },
        None => None,
    }
}

fn env_override(value: Option<&str>) -> (r: Option<String>)
    ensures
        match r {
            Some(v) => override_text(value) == Some(v@),
            None => override_text(value) is None,
        },
{
    match value {
        Some(v) => {
            let cs = chars_of(v);
            if cs.len() > 0 {
                Some(string_of(&cs))
            } else {
                None
            }
        },
        None => None,
    }
}

/// The override if there is one, else the setting.
pub open spec fn first_of(a: Option<Seq<char>>, b: Option<Seq<char>>) -> Option<Seq<char>> {
    match a {
        Some(x) => Some(x),
        None => b,
    }
}

/// `~/rest` made `<home>/rest`; any other text kept as it is.
pub fn expand_tilde(home: &str, raw: &str) -> (p: String)
    ensures
        p@ == expand_tilde_text(home@, raw@),
{
    let r = chars_of(raw);
    match strip_prefix_chars(&r, &['~', '/']) {
        Some(rest) => {
            let h = chars_of(home);
            string_of(&join_path(&h, &rest))
        },
        None => string_of(&r),
    }
}

/// The shell that the container window runs: `WSM_DEVCONTAINER_SHELL`, else
/// `devcontainer_shell` of the settings, else `zsh`.
pub fn devcontainer_shell(env: Option<&str>, content: Option<&str>) -> (s: String)
    ensures
        s@ == match first_of(override_text(env), config_value_text(opt_text(content), "devcontainer_shell"@)) {
            Some(v) => v,
            None => seq!['z', 's', 'h'],
        },
{
    match env_override(env) {
        Some(v) => v,
        None => match config_value(content, "devcontainer_shell") {
            Some(v) => v,
            None => string_of(&['z', 's', 'h']),
        },
    }
}

/// Where worktrees live: `WSM_WORKTREE_ROOT`, else `worktree_root` of the
/// settings (with `~/` expanded), else `<home>/worktrees`.
pub fn worktree_root(home: &str, env: Option<&str>, content: Option<&str>) -> (p: String)
    ensures
        p@ == match first_of(override_text(env), config_value_text(opt_text(content), "worktree_root"@)) {
            Some(v) => expand_tilde_text(home@, v),
            None => path_join(home@, seq!['w', 'o', 'r', 'k', 't', 'r', 'e', 'e', 's']),
        },
{
    let raw = match env_override(env) {
        Some(v) => Some(v),
        None => config_value(content, "worktree_root"),
    };
    match raw {
        Some(v) => expand_tilde(home, v.as_str()),
        None => {
            let h = chars_of(home);
            string_of(&join_path(&h, &['w', 'o', 'r', 'k', 't', 'r', 'e', 'e', 's']))
        },
    }
}

/// The fallback devcontainer configuration the settings name, expanded:
/// `WSM_DEFAULT_DEVCONTAINER_CONFIG`, else `default_devcontainer_config`,
/// with `~/` expanded; none when neither is set.
pub open spec fn default_devcontainer_candidate_text(
    home: Seq<char>,
    env: Option<&str>,
    content: Option<&str>,
) -> Option<Seq<char>> {
    match first_of(override_text(env), config_value_text(opt_text(content), "default_devcontainer_config"@)) {
        Some(raw) => Some(expand_tilde_text(home, raw)),
        None => None,
    }
}

/// The path the settings name as the fallback devcontainer configuration,
/// before anyone looked whether a file is there.
pub fn default_devcontainer_candidate(home: &str, env: Option<&str>, content: Option<&str>) -> (p: Option<String>)
    ensures
        match p {
            Some(v) => default_devcontainer_candidate_text(home@, env, content) == Some(v@),
            None => default_devcontainer_candidate_text(home@, env, content) is None,
        },
{
    let raw = match env_override(env) {
        Some(v) => Some(v),
        None => config_value(content, "default_devcontainer_config"),
    };
    match raw {
        Some(v) => Some(expand_tilde(home, v.as_str())),
        None => None,
    }
}

/// The fallback devcontainer configuration: the candidate the settings
/// name ([`default_devcontainer_candidate`]), offered only when it names
/// an existing regular file (`is_file`, what the caller found there).
pub fn default_devcontainer_config(home: &str, env: Option<&str>, content: Option<&str>, is_file: bool) -> (p: Option<String>)
    ensures
        match p {
            Some(v) => is_file && default_devcontainer_candidate_text(home@, env, content) == Some(v@),
            None => !is_file || default_devcontainer_candidate_text(home@, env, content) is None,
        },
{
    if !is_file {
        return None;
    }
    default_devcontainer_candidate(home, env, content)
}


/// A `Result` with its error taken as text.
pub open spec fn err_text<T>(r: Result<T, String>) -> Result<T, Seq<char>> {
    match r {
        Ok(t) => Ok(t),
        Err(e) => Err(e@),
    }
}

/// `literal` followed by `rest`, as a new string.
pub fn message(literal: &str, rest: &[char]) -> (s: String)
    ensures
        s@ == literal@ + rest@,
{
    let a = chars_of(literal);
    string_of(&crate::text::concat_chars(&a, rest))
}

// ---------------------------------------------------------------------------
// Session managers
// ---------------------------------------------------------------------------

/// A terminal session manager the library knows how to drive.
#[derive(Clone, Copy, Debug, PartialEq, Eq, Structural)]
pub enum SessionManager {
    Tmux,
    Herdr,
}

/// `tmux` / `herdr`.
pub open spec fn manager_name(m: SessionManager) -> Seq<char> {
    match m {
        SessionManager::Tmux => seq!['t', 'm', 'u', 'x'],
        SessionManager::Herdr => seq!['h', 'e', 'r', 'd', 'r'],
    }
}

impl SessionManager {
    pub fn name(self) -> (s: &'static str)
        ensures
            s@ == manager_name(self),
    {
        match self {
            SessionManager::Tmux => {
                let s = "tmux";
                proof {
                    reveal_strlit("tmux");
                }
                s
            },
            SessionManager::Herdr => {
                let s = "herdr";
                proof {
                    reveal_strlit("herdr");
                }
                s
            },
        }
    }
}

/// The manager that a line of the settings configures, with its binary:
/// `tmux_path = "..."` or `herdr_path = "..."` with a value that is not
/// empty (`~/` expanded).
pub open spec fn manager_of_line(home: Seq<char>, line: Seq<char>) -> Option<(SessionManager, Seq<char>)> {
    match config_line_value(line, "tmux_path"@) {
        Some(v) if v.len() > 0 => Some((SessionManager::Tmux, expand_tilde_text(home, v))),
        _ => match config_line_value(line, "herdr_path"@) {
            Some(v) if v.len() > 0 => Some((SessionManager::Herdr, expand_tilde_text(home, v))),
            _ => None,
        },
    }
}

/// The managers that the first `n` lines configure, in order.
pub open spec fn managers_in(home: Seq<char>, ls: Seq<Seq<char>>, n: nat) -> Seq<(SessionManager, Seq<char>)>
    decreases n,
{
    if n == 0 || n > ls.len() {
        Seq::empty()
    } else {
        let before = managers_in(home, ls, (n - 1) as nat);
        match manager_of_line(home, ls[n - 1]) {
            Some(e) => before.push(e),
            None => before,
        }
    }
}

/// The managers that the settings configure, in the order of the file.
pub open spec fn managers_of(home: Seq<char>, content: Option<Seq<char>>) -> Seq<(SessionManager, Seq<char>)> {
    match content {
        Some(c) => managers_in(home, lines(c), lines(c).len()),
        None => Seq::empty(),
    }
}

/// The configured session managers: the `tmux_path` / `herdr_path` lines of
/// the settings, in the order of the file; the first is the default. A
/// manager without a path does not exist for the library.
pub struct Managers {
    entries: Vec<(SessionManager, String)>,
}

impl View for Managers {
    type V = Seq<(SessionManager, Seq<char>)>;

    closed spec fn view(&self) -> Seq<(SessionManager, Seq<char>)> {
        Seq::new(self.entries@.len(), |i: int| (self.entries@[i].0, self.entries@[i].1@))
    }
}

/// The path of the first entry for `m`.
pub open spec fn manager_path(ms: Seq<(SessionManager, Seq<char>)>, m: SessionManager) -> Option<Seq<char>>
    decreases ms.len(),
{
    if ms.len() == 0 {
        None
    } else if ms[0].0 == m {
        Some(ms[0].1)
    } else {
        manager_path(ms.drop_first(), m)
    }
}

impl Managers {
    /// Managers from the lines of the settings file (`None`: no file).
    pub fn from_settings(home: &str, content: Option<&str>) -> (r: Managers)
        ensures
            r@ == managers_of(home@, opt_text(content)),
    {
        let mut entries: Vec<(SessionManager, String)> = Vec::new();
        let text = match content {
            Some(t) => t,
            None => {
                let r = Managers { entries };
                assert(r@ =~= Seq::<(SessionManager, Seq<char>)>::empty());
                return r;
            },
        };
        let cs = chars_of(text);
        let ls = lines_of(&cs);
        let tk = chars_of("tmux_path");
        let hk = chars_of("herdr_path");
        let mut i: usize = 0;
        while i < ls.len()
            invariant
                i <= ls@.len(),
                views(ls@) == lines(text@),
                tk@ == "tmux_path"@,
                hk@ == "herdr_path"@,
                Seq::new(entries@.len(), |k: int| (entries@[k].0, entries@[k].1@)) =~= managers_in(
                    home@,
                    views(ls@),
                    i as nat,
                ),
            decreases ls.len() - i,
        {
            let ghost before = Seq::new(entries@.len(), |k: int| (entries@[k].0, entries@[k].1@));
            let line = &ls[i];
            assert(views(ls@)[i as int] == line@);
            let found = match parse_config_line(line, &tk) {
                Some(v) if v.len() > 0 => Some((SessionManager::Tmux, v)),
                _ => match parse_config_line(line, &hk) {
                    Some(v) if v.len() > 0 => Some((SessionManager::Herdr, v)),
                    _ => None,
                },
            };
            match found {
                Some((m, v)) => {
                    let p = expand_tilde(home, string_of(&v).as_str());
                    entries.push((m, p));
                    assert(Seq::new(entries@.len(), |k: int| (entries@[k].0, entries@[k].1@))
                        =~= before.push((m, expand_tilde_text(home@, v@))));
                },
                None => {},
            }
            i = i + 1;
        }
        let r = Managers { entries };
        r
    }

    /// Manager names in the order of the settings.
    pub fn names(&self) -> (r: Vec<&'static str>)
        ensures
            r@.len() == self@.len(),
            forall|i: int| 0 <= i < r@.len() ==> #[trigger] r@[i]@ == manager_name(self@[i].0),
    {
        let mut r: Vec<&'static str> = Vec::new();
        let mut i: usize = 0;
        while i < self.entries.len()
            invariant
                i <= self.entries@.len(),
                r@.len() == i,
                forall|k: int| 0 <= k < i ==> #[trigger] r@[k]@ == manager_name(self.entries@[k].0),
            decreases self.entries.len() - i,
        {
            r.push(self.entries[i].0.name());
            i = i + 1;
        }
        r
    }

    /// The first configured manager.
    pub fn default_manager(&self) -> (r: Option<SessionManager>)
        ensures
            r == (if self@.len() > 0 { Some(self@[0].0) } else { None }),
    {
        if self.entries.len() > 0 {
            Some(self.entries[0].0)
        } else {
            None
        }
    }

    /// The binary of a configured manager.
    pub fn path(&self, manager: SessionManager) -> (r: Option<&str>)
        ensures
            match r {
                Some(p) => manager_path(self@, manager) == Some(p@),
                None => manager_path(self@, manager) is None,
            },
    {
        let mut i: usize = 0;
        assert(self@.skip(0) =~= self@);
        while i < self.entries.len()
            invariant
                i <= self.entries@.len(),
                manager_path(self@, manager) == manager_path(self@.skip(i as int), manager),
            decreases self.entries.len() - i,
        {
            assert(self@.skip(i as int).drop_first() =~= self@.skip(i + 1));
            if self.entries[i].0 == manager {
                return Some(self.entries[i].1.as_str());
            }
            i = i + 1;
        }
        None
    }
}

pub open spec fn manager_from_text(raw: Seq<char>) -> Result<SessionManager, Seq<char>> {
    if raw == seq!['t', 'm', 'u', 'x'] {
        Ok(SessionManager::Tmux)
    } else if raw == seq!['h', 'e', 'r', 'd', 'r'] {
        Ok(SessionManager::Herdr)
    } else {
        Err("Invalid session manager: "@ + raw)
    }
}

fn manager_from_name(raw: &str) -> (r: Result<SessionManager, String>)
    ensures
        err_text(r) == manager_from_text(raw@),
{
    let cs = chars_of(raw);
    if chars_eq(&cs, &['t', 'm', 'u', 'x']) {
        Ok(SessionManager::Tmux)
    } else if chars_eq(&cs, &['h', 'e', 'r', 'd', 'r']) {
        Ok(SessionManager::Herdr)
    } else {
        assert(cs@ != seq!['t', 'm', 'u', 'x']);
        Err(message("Invalid session manager: ", &cs))
    }
}

pub open spec fn configured(ms: Seq<(SessionManager, Seq<char>)>, m: SessionManager) -> Result<SessionManager, Seq<char>> {
    if manager_path(ms, m) is Some {
        Ok(m)
    } else {
        Err("session manager not configured: "@ + manager_name(m))
    }
}

fn require_configured(managers: &Managers, manager: SessionManager) -> (r: Result<SessionManager, String>)
    ensures
        err_text(r) == configured(managers@, manager),
{
    match managers.path(manager) {
        Some(_) => Ok(manager),
        None => Err(message("session manager not configured: ", &chars_of(manager.name()))),
    }
}

/// The manager to use: `WSM_SESSION_MANAGER`, else
/// `default_session_manager`, else the first configured; a named one must
/// be configured.
pub open spec fn chosen_manager(
    env: Option<Seq<char>>,
    content: Option<Seq<char>>,
    ms: Seq<(SessionManager, Seq<char>)>,
) -> Result<SessionManager, Seq<char>> {
    match first_of(env, config_value_text(content, "default_session_manager"@)) {
        Some(raw) => match manager_from_text(raw) {
            Ok(m) => configured(ms, m),
            Err(e) => Err(e),
        },
        None => if ms.len() > 0 {
            Ok(ms[0].0)
        } else {
            Err("no session manager configured (set tmux_path / herdr_path in config.toml)"@)
        },
    }
}

/// The session manager to use: `WSM_SESSION_MANAGER` > `default_session_manager`
/// > the first configured one. A named manager must be configured.
pub fn session_manager(env: Option<&str>, content: Option<&str>, managers: &Managers) -> (r: Result<SessionManager, String>)
    ensures
        err_text(r) == chosen_manager(override_text(env), opt_text(content), managers@),
{
    let raw = match env_override(env) {
        Some(v) => Some(v),
        None => config_value(content, "default_session_manager"),
    };
    match raw {
        Some(raw) => match manager_from_name(raw.as_str()) {
            Ok(m) => require_configured(managers, m),
            Err(e) => Err(e),
        },
        None => match managers.default_manager() {
            Some(m) => Ok(m),
            None => Err("no session manager configured (set tmux_path / herdr_path in config.toml)".to_owned()),
        },
    }
}

/// The default shown to the user: `default_session_manager` when it names a
/// configured manager, else the first configured.
pub open spec fn default_manager_text(content: Option<Seq<char>>, ms: Seq<(SessionManager, Seq<char>)>) -> Option<Seq<char>> {
    match config_value_text(content, "default_session_manager"@) {
        Some(raw) if (manager_from_text(raw) matches Ok(m) && manager_path(ms, m) is Some) => Some(raw),
        _ => if ms.len() > 0 {
            Some(manager_name(ms[0].0))
        } else {
            None
        },
    }
}

/// The name of the default manager shown to the user.
pub fn default_manager_name(content: Option<&str>, managers: &Managers) -> (r: Option<&'static str>)
    ensures
        match r {
            Some(s) => default_manager_text(opt_text(content), managers@) == Some(s@),
            None => default_manager_text(opt_text(content), managers@) is None,
        },
{
    let configured = match config_value(content, "default_session_manager") {
        Some(raw) => match manager_from_name(raw.as_str()) {
            Ok(m) => match managers.path(m) {
                Some(_) => Some(m),
                None => None,
            },
            Err(_) => None,
        },
        None => None,
    };
    match configured {
        Some(m) => Some(m.name()),
        None => match managers.default_manager() {
            Some(m) => Some(m.name()),
            None => None,
        },
    }
}


/// The configured session managers (see [`Managers::from_settings`]).
pub fn session_managers(home: &str, content: Option<&str>) -> (r: Managers)
    ensures
        r@ == managers_of(home@, opt_text(content)),
{
    Managers::from_settings(home, content)
}

// ---------------------------------------------------------------------------
// `[[table]]` sections
// ---------------------------------------------------------------------------

/// The texts of a list of key/value pairs.
pub open spec fn pair_views(v: Seq<(String, String)>) -> Seq<(Seq<char>, Seq<char>)> {
    Seq::new(v.len(), |i: int| (v[i].0@, v[i].1@))
}

/// A key of a table: a lower-case ASCII letter, then lower-case letters,
/// digits and `_` (a form that maps safely onto an environment variable).
pub open spec fn valid_table_key(k: Seq<char>) -> bool {
    &&& k.len() > 0
    &&& is_ascii_lower(k[0])
    &&& forall|i: int| 0 <= i < k.len() ==> #[trigger] key_char(k[i])
}

pub open spec fn key_char(c: char) -> bool {
    is_ascii_lower(c) || is_ascii_digit(c) || c == '_'
}

/// `key = "value"` inside a table, read as the pair.
pub open spec fn table_line(line: Seq<char>) -> Option<(Seq<char>, Seq<char>)> {
    match split_once(line, '=') {
        None => None,
        Some((k, rest)) => if !valid_table_key(trim(k)) {
            None
        } else {
            match strip_prefix(trim_start(rest), seq!['"']) {
                None => None,
                Some(r) => match split_once(r, '"') {
                    None => None,
                    Some((value, _)) => Some((trim(k), value)),
                },
            }
        },
    }
}

fn valid_key_chars(k: &[char]) -> (b: bool)
    ensures
        b == valid_table_key(k@),
{
    if k.len() == 0 || !ascii_lower(k[0]) {
        return false;
    }
    let mut i: usize = 0;
    while i < k.len()
        invariant
            i <= k@.len(),
            forall|j: int| 0 <= j < i ==> #[trigger] key_char(k@[j]),
        decreases k.len() - i,
    {
        let c = k[i];
        if !(ascii_lower(c) || ascii_digit(c) || c == '_') {
            assert(!key_char(k@[i as int]));
            return false;
        }
        i = i + 1;
    }
    true
}

/// `key = "value"` inside a table.
pub fn parse_table_line(line: &[char]) -> (r: Option<(String, String)>)
    ensures
        match r {
            Some((k, v)) => table_line(line@) == Some((k@, v@)),
            None => table_line(line@) is None,
        },
{
    match split_once_chars(line, '=') {
        None => None,
        Some((k0, rest)) => {
            let k = trim_chars(&k0);
            if !valid_key_chars(&k) {
                return None;
            }
            let r0 = trim_start_chars(&rest);
            let quote = vec!['"'];
            assert(quote@ =~= seq!['"']);
            match strip_prefix_chars(&r0, &quote) {
                None => None,
                Some(r) => match split_once_chars(&r, '"') {
                    None => None,
                    Some((value, tail)) => {
                        assert(split_once(line@, '=') == Some((k0@, rest@)));
                        assert(split_once(r@, '"') == Some((value@, tail@)));
                        Some((string_of(&k), string_of(&value)))
                    },
                },
            }
        },
    }
}

/// The scan of the lines of the settings for `[[header]]` tables: the
/// finished tables and the one being read.
pub open spec fn scan_tables(
    ls: Seq<Seq<char>>,
    marker: Seq<char>,
    n: nat,
) -> (Seq<Seq<(Seq<char>, Seq<char>)>>, Option<Seq<(Seq<char>, Seq<char>)>>)
    decreases n,
{
    if n == 0 || n > ls.len() {
        (Seq::empty(), None)
    } else {
        let (done, current) = scan_tables(ls, marker, (n - 1) as nat);
        let t = trim(ls[n - 1]);
        if t == marker {
            (close_table(done, current), Some(Seq::empty()))
        } else if t.len() > 0 && t[0] == '[' {
            (close_table(done, current), None)
        } else {
            match current {
                Some(sec) => match table_line(t) {
                    Some(pair) => (done, Some(sec.push(pair))),
                    None => (done, current),
                },
                None => (done, None),
            }
        }
    }
}

/// The tables read so far, with the one being read closed.
pub open spec fn close_table(
    done: Seq<Seq<(Seq<char>, Seq<char>)>>,
    current: Option<Seq<(Seq<char>, Seq<char>)>>,
) -> Seq<Seq<(Seq<char>, Seq<char>)>> {
    match current {
        Some(sec) => done.push(sec),
        None => done,
    }
}

/// The `[[header]]` tables of a text, each as its `key = "value"` pairs in
/// order. A table ends at the next section header.
pub open spec fn tables_of(content: Seq<char>, header: Seq<char>) -> Seq<Seq<(Seq<char>, Seq<char>)>> {
    let marker = seq!['[', '['] + header + seq![']', ']'];
    let ls = lines(content);
    let (done, current) = scan_tables(ls, marker, ls.len());
    close_table(done, current)
}

/// The texts of a list of tables.
pub open spec fn table_views(v: Seq<Vec<(String, String)>>) -> Seq<Seq<(Seq<char>, Seq<char>)>> {
    Seq::new(v.len(), |i: int| pair_views(v[i]@))
}

/// Every key of a table follows the key grammar: lower-case ASCII
/// letters, digits and `_`, beginning with a letter.
pub open spec fn keys_valid(sec: Seq<(Seq<char>, Seq<char>)>) -> bool {
    forall|i: int| 0 <= i < sec.len() ==> valid_table_key(#[trigger] sec[i].0)
}

proof fn lemma_scanned_keys_valid(ls: Seq<Seq<char>>, marker: Seq<char>, n: nat)
    ensures
        forall|t: int| 0 <= t < scan_tables(ls, marker, n).0.len() ==> keys_valid(#[trigger] scan_tables(ls, marker, n).0[t]),
        scan_tables(ls, marker, n).1 matches Some(sec) ==> keys_valid(sec),
    decreases n,
{
    if n > 0 && n <= ls.len() {
        lemma_scanned_keys_valid(ls, marker, (n - 1) as nat);
        let (done, current) = scan_tables(ls, marker, (n - 1) as nat);
        let t = trim(ls[n - 1]);
        if !(t == marker) && !(t.len() > 0 && t[0] == '[') {
            if let Some(sec) = current {
                if let Some(pair) = table_line(t) {
                    assert(valid_table_key(pair.0));
                    assert forall|i: int| 0 <= i < sec.push(pair).len() implies valid_table_key(#[trigger] sec.push(pair)[i].0) by {
                        if i < sec.len() {
                            assert(sec.push(pair)[i] == sec[i]);
                        }
                    }
                }
            }
        }
    }
}

/// The `[[header]]` tables of the settings, each as its pairs in order;
/// another section header ends a table. Any key of the grammar is read
/// (trackers take extension keys); lines of another shape are skipped.
pub fn table_sections(content: &str, header: &str) -> (r: Vec<Vec<(String, String)>>)
    ensures
        table_views(r@) == tables_of(content@, header@),
        forall|t: int| 0 <= t < r@.len() ==> keys_valid(#[trigger] table_views(r@)[t]),
{
    proof {
        let ls = lines(content@);
        lemma_scanned_keys_valid(ls, seq!['[', '['] + header@ + seq![']', ']'], ls.len());
    }
    let mut marker: Vec<char> = vec!['[', '['];
    crate::text::append_chars(&mut marker, &chars_of(header));
    crate::text::append_chars(&mut marker, &[']', ']']);
    assert(marker@ =~= seq!['[', '['] + header@ + seq![']', ']']);
    let cs = chars_of(content);
    let ls = lines_of(&cs);
    let mut done: Vec<Vec<(String, String)>> = Vec::new();
    let mut current: Option<Vec<(String, String)>> = None;
    let mut i: usize = 0;
    while i < ls.len()
        invariant
            i <= ls@.len(),
            views(ls@) == lines(content@),
            marker@ == seq!['[', '['] + header@ + seq![']', ']'],
            (table_views(done@), match current {
                Some(c) => Some(pair_views(c@)),
                None => None,
            }) == scan_tables(views(ls@), marker@, i as nat),
        decreases ls.len() - i,
    {
        let ghost old_done = done@;
        let ghost old_cur = current;
        assert(views(ls@)[i as int] == ls@[i as int]@);
        let t = trim_chars(&ls[i]);
        if chars_eq(&t, &marker) {
            match current {
                Some(c) => {
                    proof {
                        assert(table_views(done@.push(c)) =~= table_views(done@).push(pair_views(c@)));
                    }
                    done.push(c);
                },
                None => {},
            }
            current = Some(Vec::new());
            assert(pair_views(Seq::<(String, String)>::empty()) =~= Seq::empty());
        } else if t.len() > 0 && t[0] == '[' {
            match current {
                Some(c) => {
                    proof {
                        assert(table_views(done@.push(c)) =~= table_views(done@).push(pair_views(c@)));
                    }
                    done.push(c);
                },
                None => {},
            }
            current = None;
        } else {
            match current {
                Some(mut sec) => {
                    match parse_table_line(&t) {
                        Some(pair) => {
                            proof {
                                assert(pair_views(sec@.push(pair)) =~= pair_views(sec@).push((pair.0@, pair.1@)));
                            }
                            sec.push(pair);
                        },
                        None => {},
                    }
                    current = Some(sec);
                },
                None => {},
            }
        }
        i = i + 1;
    }
    match current {
        Some(c) => {
            proof {
                assert(table_views(done@.push(c)) =~= table_views(done@).push(pair_views(c@)));
            }
            done.push(c);
        },
        None => {},
    }
    done
}

/// The value of the last pair with `key` (a repeated key: the last wins).
pub open spec fn table_value_text(sec: Seq<(Seq<char>, Seq<char>)>, key: Seq<char>) -> Option<Seq<char>>
    decreases sec.len(),
{
    if sec.len() == 0 {
        None
    } else if sec.last().0 == key {
        Some(sec.last().1)
    } else {
        table_value_text(sec.drop_last(), key)
    }
}

/// The value of `key` in a table (a repeated key: the last wins).
pub fn table_value(section: &[(String, String)], key: &str) -> (r: Option<String>)
    ensures
        match r {
            Some(v) => table_value_text(pair_views(section@), key@) == Some(v@),
            None => table_value_text(pair_views(section@), key@) is None,
        },
{
    let k = chars_of(key);
    let mut n: usize = section.len();
    assert(pair_views(section@).take(section@.len() as int) =~= pair_views(section@));
    while n > 0
        invariant
            n <= section@.len(),
            k@ == key@,
            table_value_text(pair_views(section@), key@) == table_value_text(
                pair_views(section@).take(n as int),
                key@,
            ),
        decreases n,
    {
        let ghost prefix = pair_views(section@).take(n as int);
        assert(prefix.last() == (section@[n - 1].0@, section@[n - 1].1@));
        assert(prefix.drop_last() =~= pair_views(section@).take(n - 1));
        let name = chars_of(section[n - 1].0.as_str());
        if chars_eq(&name, &k) {
            return Some(crate::text::copy_string(&section[n - 1].1));
        }
        n = n - 1;
    }
    None
}


// ---------------------------------------------------------------------------
// Trackers
// ---------------------------------------------------------------------------

/// What the library knows of a configured tracker plugin.
pub struct TrackerView {
    pub name: Seq<char>,
    pub path: Seq<char>,
    pub ns: Seq<Seq<char>>,
    pub env: Seq<(Seq<char>, Seq<char>)>,
}

/// One configured instance of a tracker plugin. The same binary may be
/// configured several times under other names and settings.
///
/// - keys other than `name` / `path` / `ns` reach the plugin as environment
///   variables `WSM_TRACKER_<KEY>`; `WSM_TRACKER_NAME` (the instance name)
///   always does
/// - `ns` (comma separated) makes it the tracker of the repositories of
///   those namespaces
pub struct Tracker {
    name: String,
    path: String,
    ns: Vec<String>,
    env: Vec<(String, String)>,
}

impl View for Tracker {
    type V = TrackerView;

    closed spec fn view(&self) -> TrackerView {
        TrackerView {
            name: self.name@,
            path: self.path@,
            ns: Seq::new(self.ns@.len(), |i: int| self.ns@[i]@),
            env: pair_views(self.env@),
        }
    }
}

impl Tracker {
    pub fn name(&self) -> (s: &str)
        ensures
            s@ == self@.name,
    {
        self.name.as_str()
    }

    pub fn path(&self) -> (s: &str)
        ensures
            s@ == self@.path,
    {
        self.path.as_str()
    }

    /// The environment the plugin runs with (`WSM_TRACKER_NAME` and the
    /// extension keys).
    pub fn env(&self) -> (e: &[(String, String)])
        ensures
            pair_views(e@) == self@.env,
    {
        self.env.as_slice()
    }

    /// The namespace is mapped to this tracker.
    pub fn claims_ns(&self, ns: &str) -> (b: bool)
        ensures
            b == self@.ns.contains(ns@),
    {
        let mut i: usize = 0;
        while i < self.ns.len()
            invariant
                i <= self.ns@.len(),
                forall|k: int| 0 <= k < i ==> self@.ns[k] != ns@,
            decreases self.ns.len() - i,
        {
            if crate::text::str_eq(self.ns[i].as_str(), ns) {
                assert(self@.ns[i as int] == ns@);
                return true;
            }
            i = i + 1;
        }
        false
    }
}

/// `WSM_TRACKER_`.
pub open spec fn env_prefix() -> Seq<char> {
    seq!['W', 'S', 'M', '_', 'T', 'R', 'A', 'C', 'K', 'E', 'R', '_']
}

/// `env` with `var` set to `value`: replaced where it is already set,
/// appended otherwise.
pub open spec fn env_set(env: Seq<(Seq<char>, Seq<char>)>, var: Seq<char>, value: Seq<char>) -> Seq<(Seq<char>, Seq<char>)> {
    if exists|i: int| is_first_var(env, var, i) {
        let i = choose|i: int| is_first_var(env, var, i);
        env.update(i, (var, value))
    } else {
        env.push((var, value))
    }
}

/// `i` is the first entry that sets `var`.
pub open spec fn is_first_var(env: Seq<(Seq<char>, Seq<char>)>, var: Seq<char>, i: int) -> bool {
    &&& 0 <= i < env.len()
    &&& env[i].0 == var
    &&& forall|j: int| 0 <= j < i ==> env[j].0 != var
}

/// `name`, `path` and `ns` are the keys the library reads itself.
pub open spec fn reserved_key(k: Seq<char>) -> bool {
    k == seq!['n', 'a', 'm', 'e'] || k == seq!['p', 'a', 't', 'h'] || k == seq!['n', 's']
}

/// The plugin's environment after the first `n` pairs of its table.
pub open spec fn tracker_env(name: Seq<char>, sec: Seq<(Seq<char>, Seq<char>)>, n: nat) -> Seq<(Seq<char>, Seq<char>)>
    decreases n,
{
    if n == 0 || n > sec.len() {
        seq![(env_prefix() + seq!['N', 'A', 'M', 'E'], name)]
    } else {
        let before = tracker_env(name, sec, (n - 1) as nat);
        let (k, v) = sec[n - 1];
        if reserved_key(k) {
            before
        } else {
            env_set(before, env_prefix() + crate::text::ascii_upper(k), v)
        }
    }
}

/// The namespaces listed in the pieces of an `ns` value: trimmed, empty
/// ones skipped; the first that is no valid namespace is an error.
pub open spec fn ns_list(pieces: Seq<Seq<char>>) -> Result<Seq<Seq<char>>, Seq<char>>
    decreases pieces.len(),
{
    if pieces.len() == 0 {
        Ok(Seq::empty())
    } else {
        let t = trim(pieces[0]);
        if t.len() == 0 {
            ns_list(pieces.drop_first())
        } else if !crate::domains::valid_user(t) {
            Err("Invalid tracker ns: "@ + t)
        } else {
            match ns_list(pieces.drop_first()) {
                Ok(rest) => Ok(seq![t] + rest),
                Err(e) => Err(e),
            }
        }
    }
}

/// A `[[tracker]]` table read as a tracker.
pub open spec fn tracker_of_table(home: Seq<char>, sec: Seq<(Seq<char>, Seq<char>)>) -> Result<TrackerView, Seq<char>> {
    match table_value_text(sec, seq!['n', 'a', 'm', 'e']) {
        None => Err("[[tracker]] requires name in config.toml"@),
        Some(name) => match table_value_text(sec, seq!['p', 'a', 't', 'h']) {
            None => Err("[[tracker]] requires path in config.toml"@),
            Some(path) => if !crate::domains::valid_user(name) {
                Err("Invalid tracker name: "@ + name)
            } else {
                match (match table_value_text(sec, seq!['n', 's']) {
                    None => Ok(Seq::empty()),
                    Some(raw) => ns_list(crate::text::split(raw, ',')),
                }) {
                    Err(e) => Err(e),
                    Ok(ns) => Ok(
                        TrackerView {
                            name,
                            path: expand_tilde_text(home, path),
                            ns,
                            env: tracker_env(name, sec, sec.len()),
                        },
                    ),
                }
            },
        },
    }
}

fn parse_ns_list(raw: &[char]) -> (r: Result<Vec<String>, String>)
    ensures
        match r {
            Ok(v) => ns_list(crate::text::split(raw@, ',')) == Ok::<Seq<Seq<char>>, Seq<char>>(Seq::new(v@.len(), |i: int| v@[i]@)),
            Err(e) => ns_list(crate::text::split(raw@, ',')) == Err::<Seq<Seq<char>>, Seq<char>>(e@),
        },
{
    let pieces = crate::text::split_chars(raw, ',');
    let ghost ps = views(pieces@);
    let mut out: Vec<String> = Vec::new();
    let mut i: usize = 0;
    assert(ps.skip(0) =~= ps);
    while i < pieces.len()
        invariant
            i <= pieces@.len(),
            ps == views(pieces@),
            ps == crate::text::split(raw@, ','),
            ns_list(ps) == match ns_list(ps.skip(i as int)) {
                Ok(rest) => Ok(Seq::new(out@.len(), |k: int| out@[k]@) + rest),
                Err(e) => Err(e),
            },
        decreases pieces.len() - i,
    {
        let ghost rest = ps.skip(i as int);
        assert(rest[0] == pieces@[i as int]@);
        assert(rest.drop_first() =~= ps.skip(i + 1));
        let t = trim_chars(&pieces[i]);
        if t.len() == 0 {
        } else if !crate::domains::is_valid_user(string_of(&t).as_str()) {
            return Err(message("Invalid tracker ns: ", &t));
        } else {
            let ghost before = Seq::new(out@.len(), |k: int| out@[k]@);
            out.push(string_of(&t));
            proof {
                let after = Seq::new(out@.len(), |k: int| out@[k]@);
                assert(after =~= before.push(t@));
                match ns_list(ps.skip(i + 1)) {
                    Ok(r2) => {
                        assert(before + (seq![t@] + r2) =~= after + r2);
                    },
                    Err(_) => {},
                }
            }
        }
        i = i + 1;
    }
    assert(ps.skip(i as int) =~= Seq::<Seq<char>>::empty());
    assert(Seq::new(out@.len(), |k: int| out@[k]@) + Seq::<Seq<char>>::empty() =~= Seq::new(out@.len(), |k: int| out@[k]@));
    Ok(out)
}

/// Sets `var` in the plugin's environment.
fn set_env(env: &mut Vec<(String, String)>, var: Vec<char>, value: &String)
    ensures
        pair_views(final(env)@) == env_set(pair_views(old(env)@), var@, value@),
{
    let ghost pv = pair_views(env@);
    let mut i: usize = 0;
    while i < env.len()
        invariant
            i <= env@.len(),
            env@ == old(env)@,
            pv == pair_views(env@),
            forall|k: int| 0 <= k < i ==> pv[k].0 != var@,
        decreases env.len() - i,
    {
        if chars_eq(&chars_of(env[i].0.as_str()), &var) {
            proof {
                assert(is_first_var(pv, var@, i as int));
                let c = choose|c: int| is_first_var(pv, var@, c);
                if c < i {
                    assert(pv[c].0 != var@);
                } else if i < c {
                    assert(pv[i as int].0 != var@);
                }
            }
            env.set(i, (string_of(&var), crate::text::copy_string(value)));
            assert(pair_views(env@) =~= pv.update(i as int, (var@, value@)));
            return;
        }
        i = i + 1;
    }
    env.push((string_of(&var), crate::text::copy_string(value)));
    assert(pair_views(env@) =~= pv.push((var@, value@)));
}


/// A `[[tracker]]` table read as a tracker: `name` and `path` are required,
/// the name must be a valid instance name, `ns` lists namespaces, other
/// keys become the plugin's environment.
fn tracker_entry(home: &str, section: &[(String, String)]) -> (r: Result<Tracker, String>)
    ensures
        match r {
            Ok(t) => tracker_of_table(home@, pair_views(section@)) == Ok::<TrackerView, Seq<char>>(t@),
            Err(e) => tracker_of_table(home@, pair_views(section@)) == Err::<TrackerView, Seq<char>>(e@),
        },
{
    proof {
        reveal_strlit("name");
        reveal_strlit("path");
        reveal_strlit("ns");
    }
    assert("name"@ == seq!['n', 'a', 'm', 'e']);
    assert("path"@ == seq!['p', 'a', 't', 'h']);
    assert("ns"@ == seq!['n', 's']);
    let name = match table_value(section, "name") {
        Some(n) => n,
        None => {
            assert("name"@ == seq!['n', 'a', 'm', 'e']);
            assert(table_value_text(pair_views(section@), seq!['n', 'a', 'm', 'e']) is None);
            let e = "[[tracker]] requires name in config.toml".to_owned();
            assert(e@ == "[[tracker]] requires name in config.toml"@);
            return Err(e);
        },
    };
    assert(table_value_text(pair_views(section@), seq!['n', 'a', 'm', 'e']) == Some(name@));
    let path = match table_value(section, "path") {
        Some(p) => p,
        None => {
            assert("path"@ == seq!['p', 'a', 't', 'h']);
            let e = "[[tracker]] requires path in config.toml".to_owned();
            assert(e@ == "[[tracker]] requires path in config.toml"@);
            return Err(e);
        },
    };
    assert(table_value_text(pair_views(section@), seq!['p', 'a', 't', 'h']) == Some(path@));
    if !crate::domains::is_valid_user(name.as_str()) {
        let e = message("Invalid tracker name: ", &chars_of(name.as_str()));
        assert(e@ == "Invalid tracker name: "@ + name@);
        return Err(e);
    }
    let ns = match table_value(section, "ns") {
        None => Vec::new(),
        Some(raw) => match parse_ns_list(&chars_of(raw.as_str())) {
            Ok(v) => v,
            Err(e) => {
                assert("ns"@ == seq!['n', 's']);
                assert(table_value_text(pair_views(section@), seq!['n', 's']) == Some(raw@));
                return Err(e);
            },
        },
    };
    let ghost sec = pair_views(section@);
    let mut env: Vec<(String, String)> = Vec::new();
    let name_var: Vec<char> = vec!['W', 'S', 'M', '_', 'T', 'R', 'A', 'C', 'K', 'E', 'R', '_', 'N', 'A', 'M', 'E'];
    assert(name_var@ =~= env_prefix() + seq!['N', 'A', 'M', 'E']);
    env.push((string_of(&name_var), crate::text::copy_string(&name)));
    assert(pair_views(env@) =~= tracker_env(name@, sec, 0));
    let mut i: usize = 0;
    while i < section.len()
        invariant
            i <= section@.len(),
            sec == pair_views(section@),
            pair_views(env@) == tracker_env(name@, sec, i as nat),
        decreases section.len() - i,
    {
        let key = chars_of(section[i].0.as_str());
        assert(sec[i as int] == (section@[i as int].0@, section@[i as int].1@));
        let reserved = chars_eq(&key, &['n', 'a', 'm', 'e']) || chars_eq(&key, &['p', 'a', 't', 'h'])
            || chars_eq(&key, &['n', 's']);
        if !reserved {
            let mut var: Vec<char> = vec!['W', 'S', 'M', '_', 'T', 'R', 'A', 'C', 'K', 'E', 'R', '_'];
            assert(var@ =~= env_prefix());
            crate::text::append_chars(&mut var, &crate::text::ascii_upper_chars(&key));
            set_env(&mut env, var, &section[i].1);
        }
        i = i + 1;
    }
    let ghost ns_view = Seq::new(ns@.len(), |k: int| ns@[k]@);
    proof {
        if table_value_text(sec, seq!['n', 's']) is None {
            assert(ns_view =~= Seq::<Seq<char>>::empty());
        }
    }
    let home_path = expand_tilde(home, path.as_str());
    Ok(Tracker { name, path: home_path, ns, env })
}

/// The settings' `[[tracker]]` instances, read one by one; the first table
/// that fails to read is the error.
pub open spec fn trackers_of_tables(home: Seq<char>, secs: Seq<Seq<(Seq<char>, Seq<char>)>>, n: nat) -> Result<Seq<TrackerView>, Seq<char>>
    decreases n,
{
    if n == 0 || n > secs.len() {
        Ok(Seq::empty())
    } else {
        match trackers_of_tables(home, secs, (n - 1) as nat) {
            Err(e) => Err(e),
            Ok(before) => match tracker_of_table(home, secs[n - 1]) {
                Err(e) => Err(e),
                Ok(t) => Ok(before.push(t)),
            },
        }
    }
}

/// The first namespace of `a` that `b` holds too.
pub open spec fn first_shared(a: Seq<Seq<char>>, b: Seq<Seq<char>>) -> Option<Seq<char>>
    decreases a.len(),
{
    if a.len() == 0 {
        None
    } else if b.contains(a[0]) {
        Some(a[0])
    } else {
        first_shared(a.drop_first(), b)
    }
}

/// The first tracker after the `i`-th, from the `j`-th on, that claims a
/// namespace the `i`-th claims: (namespace, first name, second name).
pub open spec fn clash_with(ts: Seq<TrackerView>, i: int, j: int) -> Option<(Seq<char>, Seq<char>, Seq<char>)>
    decreases ts.len() - j,
{
    if j < 0 || j >= ts.len() || i < 0 || i >= ts.len() {
        None
    } else {
        match first_shared(ts[i].ns, ts[j].ns) {
            Some(ns) => Some((ns, ts[i].name, ts[j].name)),
            None => clash_with(ts, i, j + 1),
        }
    }
}

/// The first pair of trackers (in order) that claim the same namespace.
pub open spec fn clash_from(ts: Seq<TrackerView>, i: int) -> Option<(Seq<char>, Seq<char>, Seq<char>)>
    decreases ts.len() - i,
{
    if i < 0 || i >= ts.len() {
        None
    } else {
        match clash_with(ts, i, i + 1) {
            Some(c) => Some(c),
            None => clash_from(ts, i + 1),
        }
    }
}

/// The configured trackers: the `[[tracker]]` tables and `default_tracker`.
/// Only what is listed exists; the default is `default_tracker`, else the
/// first one.
pub struct Trackers {
    entries: Vec<Tracker>,
    default: Option<String>,
}

/// What the library knows of the configured trackers.
pub struct TrackersView {
    pub entries: Seq<TrackerView>,
    pub default: Option<Seq<char>>,
}

impl View for Trackers {
    type V = TrackersView;

    closed spec fn view(&self) -> TrackersView {
        TrackersView {
            entries: Seq::new(self.entries@.len(), |i: int| self.entries@[i]@),
            default: match self.default {
                Some(d) => Some(d@),
                None => None,
            },
        }
    }
}

/// Some tracker of the list has this name.
pub open spec fn has_tracker(ts: Seq<TrackerView>, name: Seq<char>) -> bool {
    exists|i: int| 0 <= i < ts.len() && #[trigger] ts[i].name == name
}

/// The settings read as trackers: every table must read, no namespace may be
/// claimed twice, and `default_tracker` must name a listed tracker.
pub open spec fn trackers_of(home: Seq<char>, content: Option<Seq<char>>) -> Result<TrackersView, Seq<char>> {
    let text = match content {
        Some(c) => c,
        None => Seq::empty(),
    };
    let secs = tables_of(text, "tracker"@);
    match trackers_of_tables(home, secs, secs.len()) {
        Err(e) => Err(e),
        Ok(ts) => match clash_from(ts, 0) {
            Some(c) => Err(clash_message(c)),
            None => match config_value_text(content, "default_tracker"@) {
                Some(d) => if has_tracker(ts, d) {
                    Ok(TrackersView { entries: ts, default: Some(d) })
                } else {
                    Err("tracker not configured: "@ + d)
                },
                None => Ok(TrackersView { entries: ts, default: None }),
            },
        },
    }
}


/// The names of the trackers, in order.
pub open spec fn tracker_names(ts: Seq<TrackerView>) -> Seq<Seq<char>> {
    ts.map_values(|t: TrackerView| t.name)
}

/// The first tracker of this name, or the error naming it.
pub open spec fn named_in(ts: Seq<TrackerView>, name: Seq<char>) -> Result<TrackerView, Seq<char>> {
    match crate::text::first_index(tracker_names(ts), name) {
        Some(i) => Ok(ts[i]),
        None => Err("tracker not configured: "@ + name),
    }
}

/// The default tracker's name: `default_tracker`, else the first one.
pub open spec fn default_name_of(v: TrackersView) -> Option<Seq<char>> {
    match v.default {
        Some(d) => Some(d),
        None => if v.entries.len() > 0 {
            Some(v.entries[0].name)
        } else {
            None
        },
    }
}

/// The default tracker, or why there is none.
pub open spec fn default_of(v: TrackersView) -> Result<TrackerView, Seq<char>> {
    match default_name_of(v) {
        Some(n) => named_in(v.entries, n),
        None => Err("no tracker configured (add [[tracker]] to config.toml)"@),
    }
}

/// `i` is the first tracker that claims `ns`.
pub open spec fn is_first_owner(ts: Seq<TrackerView>, ns: Seq<char>, i: int) -> bool {
    &&& 0 <= i < ts.len()
    &&& ts[i].ns.contains(ns)
    &&& forall|j: int| 0 <= j < i ==> !ts[j].ns.contains(ns)
}

/// The tracker of a repository: the one its entry names, else the first
/// that claims its namespace, else the default; none when no tracker is
/// configured at all.
pub open spec fn tracker_for(v: TrackersView, named: Option<Seq<char>>, ns: Seq<char>) -> Result<Option<TrackerView>, Seq<char>> {
    match named {
        Some(n) => match named_in(v.entries, n) {
            Ok(t) => Ok(Some(t)),
            Err(e) => Err(e),
        },
        None => if exists|i: int| is_first_owner(v.entries, ns, i) {
            Ok(Some(v.entries[choose|i: int| is_first_owner(v.entries, ns, i)]))
        } else if v.entries.len() == 0 {
            Ok(None)
        } else {
            match default_of(v) {
                Ok(t) => Ok(Some(t)),
                Err(e) => Err(e),
            }
        },
    }
}

/// The trackers among the first `n` whose name is (`keep`) or is not the
/// given one, in order.
pub open spec fn select_named(ts: Seq<TrackerView>, name: Option<Seq<char>>, keep: bool, n: nat) -> Seq<TrackerView>
    decreases n,
{
    if n == 0 || n > ts.len() {
        Seq::empty()
    } else {
        let before = select_named(ts, name, keep, (n - 1) as nat);
        if (Some(ts[n - 1].name) == name) == keep {
            before.push(ts[n - 1])
        } else {
            before
        }
    }
}

/// All trackers with the default first.
pub open spec fn all_of(v: TrackersView) -> Seq<TrackerView> {
    select_named(v.entries, default_name_of(v), true, v.entries.len())
        + select_named(v.entries, default_name_of(v), false, v.entries.len())
}

/// The views of a list of borrowed trackers.
pub open spec fn tracker_refs(v: Seq<&Tracker>) -> Seq<TrackerView> {
    Seq::new(v.len(), |i: int| v[i]@)
}

impl Trackers {
    /// Every instance, the default first (for group views and listings).
    pub fn all(&self) -> (r: Vec<&Tracker>)
        ensures
            tracker_refs(r@) == all_of(self@),
    {
        let default = self.default_name();
        let ghost d = default_name_of(self@);
        let ghost ts = self@.entries;
        let mut out: Vec<&Tracker> = Vec::new();
        let mut pass: usize = 0;
        while pass < 2
            invariant
                pass <= 2,
                ts == self@.entries,
                d == default_name_of(self@),
                match default {
                    Some(x) => d == Some(x@),
                    None => d is None,
                },
                pass == 0 ==> out@.len() == 0,
                pass == 1 ==> tracker_refs(out@) == select_named(ts, d, true, ts.len()),
                pass == 2 ==> tracker_refs(out@) == all_of(self@),
            decreases 2 - pass,
        {
            let keep = pass == 0;
            let ghost base = tracker_refs(out@);
            let mut i: usize = 0;
            while i < self.entries.len()
                invariant
                    i <= self.entries@.len(),
                    ts == self@.entries,
                    ts.len() == self.entries@.len(),
                    keep == (pass == 0),
                    pass < 2,
                    match default {
                        Some(x) => d == Some(x@),
                        None => d is None,
                    },
                    tracker_refs(out@) == base + select_named(ts, d, keep, i as nat),
                decreases self.entries.len() - i,
            {
                let t = &self.entries[i];
                assert(ts[i as int] == t@);
                let is_default = match default {
                    Some(x) => crate::text::str_eq(t.name.as_str(), x),
                    None => false,
                };
                assert(is_default == (Some(ts[i as int].name) == d));
                let ghost before = tracker_refs(out@);
                if is_default == keep {
                    out.push(t);
                    assert(tracker_refs(out@) =~= before.push(t@));
                } else {
                    assert(tracker_refs(out@) =~= before);
                }
                assert(base + select_named(ts, d, keep, (i + 1) as nat) =~= tracker_refs(out@));
                i = i + 1;
            }
            proof {
                if pass == 0 {
                    assert(base =~= Seq::<TrackerView>::empty());
                    assert(tracker_refs(out@) =~= select_named(ts, d, true, ts.len()));
                }
            }
            pass = pass + 1;
        }
        out
    }

    /// The default tracker's name (`default_tracker`, else the first one).
    pub fn default_name(&self) -> (r: Option<&str>)
        ensures
            match r {
                Some(n) => default_name_of(self@) == Some(n@),
                None => default_name_of(self@) is None,
            },
    {
        match &self.default {
            Some(d) => Some(d.as_str()),
            None => if self.entries.len() > 0 {
                assert(self@.entries[0] == self.entries@[0]@);
                Some(self.entries[0].name.as_str())
            } else {
                None
            },
        }
    }

    /// The default tracker; none configured is an error of the settings.
    pub fn default_tracker(&self) -> (r: Result<&Tracker, String>)
        ensures
            match r {
                Ok(t) => default_of(self@) == Ok::<TrackerView, Seq<char>>(t@),
                Err(e) => default_of(self@) == Err::<TrackerView, Seq<char>>(e@),
            },
    {
        match self.default_name() {
            Some(n) => self.named(n),
            None => {
                let e = "no tracker configured (add [[tracker]] to config.toml)".to_owned();
                proof {
                    reveal_strlit("no tracker configured (add [[tracker]] to config.toml)");
                }
                Err(e)
            },
        }
    }

    /// The instance of this name; one that is not listed is an error of
    /// the settings.
    pub fn named(&self, name: &str) -> (r: Result<&Tracker, String>)
        ensures
            match r {
                Ok(t) => named_in(self@.entries, name@) == Ok::<TrackerView, Seq<char>>(t@),
                Err(e) => named_in(self@.entries, name@) == Err::<TrackerView, Seq<char>>(e@),
            },
    {
        let ghost ts = self@.entries;
        let ghost names = tracker_names(ts);
        let mut i: usize = 0;
        while i < self.entries.len()
            invariant
                i <= self.entries@.len(),
                ts == self@.entries,
                names == tracker_names(ts),
                ts.len() == self.entries@.len(),
                forall|k: int| 0 <= k < i ==> names[k] != name@,
            decreases self.entries.len() - i,
        {
            assert(ts[i as int] == self.entries@[i as int]@);
            if crate::text::str_eq(self.entries[i].name.as_str(), name) {
                proof {
                    crate::text::lemma_first_index(names, name@, i as int);
                }
                return Ok(&self.entries[i]);
            }
            i = i + 1;
        }
        proof {
            crate::text::lemma_no_first_index(names, name@);
        }
        Err(message("tracker not configured: ", &chars_of(name)))
    }

    /// The instance of an optional name; no name is the default.
    pub fn named_or_default(&self, name: Option<&str>) -> (r: Result<&Tracker, String>)
        ensures
            match (r, name) {
                (Ok(t), Some(n)) => named_in(self@.entries, n@) == Ok::<TrackerView, Seq<char>>(t@),
                (Err(e), Some(n)) => named_in(self@.entries, n@) == Err::<TrackerView, Seq<char>>(e@),
                (Ok(t), None) => default_of(self@) == Ok::<TrackerView, Seq<char>>(t@),
                (Err(e), None) => default_of(self@) == Err::<TrackerView, Seq<char>>(e@),
            },
    {
        match name {
            Some(n) => self.named(n),
            None => self.default_tracker(),
        }
    }

    /// The tracker of a repository: its entry's `tracker` (explicit), else
    /// the namespace mapping, else the default. `None` when no tracker is
    /// configured at all (lookups then degrade).
    pub fn for_repo(&self, entry: &RepoEntry) -> (r: Result<Option<&Tracker>, String>)
        ensures
            match r {
                Ok(Some(t)) => tracker_for(self@, opt_string(entry.tracker), entry.repo@.0) == Ok::<Option<TrackerView>, Seq<char>>(Some(t@)),
                Ok(None) => tracker_for(self@, opt_string(entry.tracker), entry.repo@.0) == Ok::<Option<TrackerView>, Seq<char>>(None),
                Err(e) => tracker_for(self@, opt_string(entry.tracker), entry.repo@.0) == Err::<Option<TrackerView>, Seq<char>>(e@),
            },
    {
        if let Some(name) = &entry.tracker {
            return match self.named(name.as_str()) {
                Ok(t) => Ok(Some(t)),
                Err(e) => Err(e),
            };
        }
        let ns = entry.repo.ns();
        let ghost ts = self@.entries;
        let mut i: usize = 0;
        while i < self.entries.len()
            invariant
                i <= self.entries@.len(),
                ts == self@.entries,
                ts.len() == self.entries@.len(),
                entry.tracker is None,
                ns@ == entry.repo@.0,
                forall|k: int| 0 <= k < i ==> !(#[trigger] ts[k]).ns.contains(ns@),
            decreases self.entries.len() - i,
        {
            assert(ts[i as int] == self.entries@[i as int]@);
            if self.entries[i].claims_ns(ns) {
                proof {
                    assert(is_first_owner(ts, ns@, i as int));
                    let c = choose|c: int| is_first_owner(ts, ns@, c);
                    if c < i {
                        assert(!ts[c].ns.contains(ns@));
                    } else if i < c {
                        assert(!ts[i as int].ns.contains(ns@));
                    }
                    assert(c == i as int);
                    assert(opt_string(entry.tracker) is None);
                    assert(tracker_for(self@, None, ns@) == Ok::<Option<TrackerView>, Seq<char>>(Some(ts[c])));
                }
                return Ok(Some(&self.entries[i]));
            }
            i = i + 1;
        }
        assert(!exists|c: int| is_first_owner(ts, ns@, c));
        if self.entries.len() == 0 {
            return Ok(None);
        }
        match self.default_tracker() {
            Ok(t) => Ok(Some(t)),
            Err(e) => Err(e),
        }
    }
}

/// The text of an optional string.
pub open spec fn opt_string(s: Option<String>) -> Option<Seq<char>> {
    match s {
        Some(t) => Some(t@),
        None => None,
    }
}


/// The error for a namespace that two trackers claim.
pub open spec fn clash_message(c: (Seq<char>, Seq<char>, Seq<char>)) -> Seq<char> {
    "ns mapped to multiple trackers: "@ + c.0 + " ("@ + c.1 + ", "@ + c.2 + ")"@
}

/// The first namespace of `a` that `b` claims too.
fn shared_ns(a: &Tracker, b: &Tracker) -> (r: Option<String>)
    ensures
        match r {
            Some(x) => first_shared(a@.ns, b@.ns) == Some(x@),
            None => first_shared(a@.ns, b@.ns) is None,
        },
{
    let ghost an = a@.ns;
    let mut i: usize = 0;
    assert(an.skip(0) =~= an);
    while i < a.ns.len()
        invariant
            i <= a.ns@.len(),
            an == a@.ns,
            an.len() == a.ns@.len(),
            first_shared(an, b@.ns) == first_shared(an.skip(i as int), b@.ns),
        decreases a.ns.len() - i,
    {
        let ghost rest = an.skip(i as int);
        assert(rest[0] == a.ns@[i as int]@);
        assert(rest.drop_first() =~= an.skip(i + 1));
        if b.claims_ns(a.ns[i].as_str()) {
            return Some(crate::text::copy_string(&a.ns[i]));
        }
        i = i + 1;
    }
    assert(an.skip(i as int).len() == 0);
    None
}

/// The error for the first namespace claimed by two trackers, if any.
fn find_clash(ts: &Vec<Tracker>) -> (r: Option<String>)
    ensures
        match r {
            Some(e) => match clash_from(Seq::new(ts@.len(), |k: int| ts@[k]@), 0) {
                Some(c) => e@ == clash_message(c),
                None => false,
            },
            None => clash_from(Seq::new(ts@.len(), |k: int| ts@[k]@), 0) is None,
        },
{
    let ghost v = Seq::new(ts@.len(), |k: int| ts@[k]@);
    let mut i: usize = 0;
    while i < ts.len()
        invariant
            i <= ts@.len(),
            v == Seq::new(ts@.len(), |k: int| ts@[k]@),
            clash_from(v, 0) == clash_from(v, i as int),
        decreases ts.len() - i,
    {
        let mut j: usize = i + 1;
        while j < ts.len()
            invariant
                i < ts@.len(),
                i + 1 <= j <= ts@.len(),
                v == Seq::new(ts@.len(), |k: int| ts@[k]@),
                clash_from(v, 0) == clash_from(v, i as int),
                clash_with(v, i as int, i + 1) == clash_with(v, i as int, j as int),
            decreases ts.len() - j,
        {
            match shared_ns(&ts[i], &ts[j]) {
                Some(ns) => {
                    let a = &ts[i];
                    let b = &ts[j];
                    assert(clash_with(v, i as int, j as int) == Some((ns@, a@.name, b@.name)));
                    let mut m = chars_of("ns mapped to multiple trackers: ");
                    crate::text::append_chars(&mut m, &chars_of(ns.as_str()));
                    crate::text::append_chars(&mut m, &chars_of(" ("));
                    crate::text::append_chars(&mut m, &chars_of(a.name.as_str()));
                    crate::text::append_chars(&mut m, &chars_of(", "));
                    crate::text::append_chars(&mut m, &chars_of(b.name.as_str()));
                    crate::text::append_chars(&mut m, &chars_of(")"));
                    assert(m@ == clash_message((ns@, a@.name, b@.name)));
                    return Some(string_of(&m));
                },
                None => {},
            }
            j = j + 1;
        }
        i = i + 1;
    }
    None
}

/// Names the same tracker exactly when the first search finds one.
proof fn lemma_has_tracker(ts: Seq<TrackerView>, name: Seq<char>)
    ensures
        has_tracker(ts, name) <==> crate::text::first_index(tracker_names(ts), name) is Some,
{
    let names = tracker_names(ts);
    if has_tracker(ts, name) {
        let i = choose|i: int| 0 <= i < ts.len() && #[trigger] ts[i].name == name;
        assert(names[i] == name);
        crate::text::lemma_contains_has_first(names, name, i);
    }
    if crate::text::first_index(names, name) is Some {
        let i = crate::text::first_index(names, name)->0;
        assert(crate::text::is_first(names, name, i));
        assert(ts[i].name == name);
    }
}

/// The configured trackers: every `[[tracker]]` table read (the first that
/// fails is the error), no namespace claimed by two of them, and
/// `default_tracker`, when set, naming one of them.
pub fn trackers(home: &str, content: Option<&str>) -> (r: Result<Trackers, String>)
    ensures
        match r {
            Ok(t) => trackers_of(home@, opt_text(content)) == Ok::<TrackersView, Seq<char>>(t@),
            Err(e) => trackers_of(home@, opt_text(content)) == Err::<TrackersView, Seq<char>>(e@),
        },
{
    proof {
        reveal_strlit("");
    }
    let text = match content {
        Some(c) => c,
        None => "",
    };
    let secs = table_sections(text, "tracker");
    let ghost sv = table_views(secs@);
    let mut entries: Vec<Tracker> = Vec::new();
    let mut i: usize = 0;
    assert(Seq::new(entries@.len(), |k: int| entries@[k]@) =~= Seq::<TrackerView>::empty());
    while i < secs.len()
        invariant
            i <= secs@.len(),
            sv == table_views(secs@),
            sv == tables_of(text@, "tracker"@),
            text@ == (match opt_text(content) {
                Some(c) => c,
                None => Seq::<char>::empty(),
            }),
            trackers_of_tables(home@, sv, i as nat) == Ok::<Seq<TrackerView>, Seq<char>>(
                Seq::new(entries@.len(), |k: int| entries@[k]@),
            ),
        decreases secs.len() - i,
    {
        assert(sv[i as int] == pair_views(secs@[i as int]@));
        match tracker_entry(home, secs[i].as_slice()) {
            Ok(t) => {
                let ghost before = Seq::new(entries@.len(), |k: int| entries@[k]@);
                entries.push(t);
                assert(Seq::new(entries@.len(), |k: int| entries@[k]@) =~= before.push(t@));
            },
            Err(e) => {
                assert(trackers_of_tables(home@, sv, sv.len()) == Err::<Seq<TrackerView>, Seq<char>>(e@)) by {
                    lemma_tables_error_stays(home@, sv, (i + 1) as nat, sv.len(), e@);
                }
                return Err(e);
            },
        }
        i = i + 1;
    }
    let ghost ts = Seq::new(entries@.len(), |k: int| entries@[k]@);
    if let Some(e) = find_clash(&entries) {
        return Err(e);
    }
    let default = config_value(content, "default_tracker");
    let result = Trackers { entries, default: None };
    assert(result@.entries =~= ts);
    match default {
        None => Ok(result),
        Some(d) => {
            proof {
                lemma_has_tracker(ts, d@);
            }
            match result.named(d.as_str()) {
                Ok(_) => Ok(Trackers { entries: result.entries, default: Some(d) }),
                Err(e) => Err(e),
            }
        },
    }
}

/// Once a table fails to read, the list of trackers stays that error.
proof fn lemma_tables_error_stays(
    home: Seq<char>,
    secs: Seq<Seq<(Seq<char>, Seq<char>)>>,
    n: nat,
    m: nat,
    e: Seq<char>,
)
    requires
        0 < n <= m <= secs.len(),
        trackers_of_tables(home, secs, n) == Err::<Seq<TrackerView>, Seq<char>>(e),
    ensures
        trackers_of_tables(home, secs, m) == Err::<Seq<TrackerView>, Seq<char>>(e),
    decreases m - n,
{
    if n < m {
        lemma_tables_error_stays(home, secs, n, (m - 1) as nat, e);
    }
}


// ---------------------------------------------------------------------------
// Repositories outside the store
// ---------------------------------------------------------------------------

/// A `[[repo]]` table read as a repository entry: `path`, `host` and `ns`
/// are required, `name` defaults to the last component of the path, the
/// host and the identifier must be well formed, and `tracker`, when given,
/// must be a valid instance name.
pub open spec fn repo_of_table(home: Seq<char>, sec: Seq<(Seq<char>, Seq<char>)>) -> Result<crate::domains::RepoEntryView, Seq<char>> {
    match table_value_text(sec, seq!['p', 'a', 't', 'h']) {
        None => Err("[[repo]] requires path in config.toml"@),
        Some(path) => match table_value_text(sec, seq!['h', 'o', 's', 't']) {
            None => Err("[[repo]] requires host in config.toml"@),
            Some(host) => match table_value_text(sec, seq!['n', 's']) {
                None => Err("[[repo]] requires ns in config.toml"@),
                Some(ns) => {
                    let clone_path = expand_tilde_text(home, path);
                    match (match table_value_text(sec, seq!['n', 'a', 'm', 'e']) {
                        Some(n) => Some(n),
                        None => crate::domains::file_name_text(clone_path),
                    }) {
                        None => Err("[[repo]] path has no basename for name"@),
                        Some(name) => if !crate::domains::valid_host(host) {
                            Err("Invalid repo host: "@ + host)
                        } else {
                            match crate::domains::parse_repo_ref(ns + seq!['/'] + name) {
                                None => Err("Invalid repo entry: "@ + ns + seq!['/'] + name),
                                Some(repo) => match table_value_text(sec, seq!['t', 'r', 'a', 'c', 'k', 'e', 'r']) {
                                    Some(t) => if !crate::domains::valid_user(t) {
                                        Err("Invalid tracker name: "@ + t)
                                    } else {
                                        Ok(crate::domains::RepoEntryView { repo, host, clone_path, tracker: Some(t) })
                                    },
                                    None => Ok(crate::domains::RepoEntryView { repo, host, clone_path, tracker: None }),
                                },
                            }
                        },
                    }
                },
            },
        },
    }
}

/// Checks a `[[repo]]` table and reads it as a repository entry. Errors of
/// the settings are reported, not dropped.
pub fn repo_entry(home: &str, section: &[(String, String)]) -> (r: Result<RepoEntry, String>)
    ensures
        match r {
            Ok(e) => repo_of_table(home@, pair_views(section@)) == Ok::<crate::domains::RepoEntryView, Seq<char>>(e@),
            Err(e) => repo_of_table(home@, pair_views(section@)) == Err::<crate::domains::RepoEntryView, Seq<char>>(e@),
        },
{
    proof {
        reveal_strlit("path");
        reveal_strlit("host");
        reveal_strlit("ns");
        reveal_strlit("name");
        reveal_strlit("tracker");
        reveal_strlit("[[repo]] requires path in config.toml");
        reveal_strlit("[[repo]] requires host in config.toml");
        reveal_strlit("[[repo]] requires ns in config.toml");
        reveal_strlit("[[repo]] path has no basename for name");
    }
    assert("path"@ == seq!['p', 'a', 't', 'h']);
    assert("host"@ == seq!['h', 'o', 's', 't']);
    assert("ns"@ == seq!['n', 's']);
    assert("name"@ == seq!['n', 'a', 'm', 'e']);
    assert("tracker"@ == seq!['t', 'r', 'a', 'c', 'k', 'e', 'r']);
    let path = match table_value(section, "path") {
        Some(p) => p,
        None => return Err("[[repo]] requires path in config.toml".to_owned()),
    };
    let host = match table_value(section, "host") {
        Some(h) => h,
        None => return Err("[[repo]] requires host in config.toml".to_owned()),
    };
    let ns = match table_value(section, "ns") {
        Some(n) => n,
        None => return Err("[[repo]] requires ns in config.toml".to_owned()),
    };
    let clone_path = expand_tilde(home, path.as_str());
    let name: Vec<char> = match table_value(section, "name") {
        Some(n) => chars_of(n.as_str()),
        None => match crate::domains::file_name(&chars_of(clone_path.as_str())) {
            Some(n) => n,
            None => return Err("[[repo]] path has no basename for name".to_owned()),
        },
    };
    let ghost sec = pair_views(section@);
    assert((match table_value_text(sec, seq!['n', 'a', 'm', 'e']) {
        Some(n) => Some(n),
        None => crate::domains::file_name_text(expand_tilde_text(home@, path@)),
    }) == Some(name@));
    if !crate::domains::is_valid_host(host.as_str()) {
        return Err(message("Invalid repo host: ", &chars_of(host.as_str())));
    }
    let mut ns_repo = chars_of(ns.as_str());
    crate::text::append_chars(&mut ns_repo, &['/']);
    crate::text::append_chars(&mut ns_repo, &name);
    assert(ns_repo@ =~= ns@ + seq!['/'] + name@);
    let joined = string_of(&ns_repo);
    let repo = match crate::domains::RepoRef::parse(joined.as_str()) {
        Some(r) => r,
        None => {
            let e = message("Invalid repo entry: ", &ns_repo);
            assert(e@ =~= "Invalid repo entry: "@ + ns@ + seq!['/'] + name@);
            return Err(e);
        },
    };
    let tracker = table_value(section, "tracker");
    if let Some(t) = &tracker {
        if !crate::domains::is_valid_user(t.as_str()) {
            return Err(message("Invalid tracker name: ", &chars_of(t.as_str())));
        }
    }
    Ok(RepoEntry { repo, host, clone_path, tracker })
}

/// The `[[repo]]` tables read in order, the first that fails to read being
/// the error.
pub open spec fn repos_of_tables(home: Seq<char>, secs: Seq<Seq<(Seq<char>, Seq<char>)>>, n: nat) -> Result<Seq<crate::domains::RepoEntryView>, Seq<char>>
    decreases n,
{
    if n == 0 || n > secs.len() {
        Ok(Seq::empty())
    } else {
        match repos_of_tables(home, secs, (n - 1) as nat) {
            Err(e) => Err(e),
            Ok(before) => match repo_of_table(home, secs[n - 1]) {
                Err(e) => Err(e),
                Ok(r) => Ok(before.push(r)),
            },
        }
    }
}

/// The repositories the settings register outside the store.
pub open spec fn custom_repos_of(home: Seq<char>, content: Option<Seq<char>>) -> Result<Seq<crate::domains::RepoEntryView>, Seq<char>> {
    let text = match content {
        Some(c) => c,
        None => Seq::empty(),
    };
    let secs = tables_of(text, "repo"@);
    repos_of_tables(home, secs, secs.len())
}

/// Repositories kept outside the store (`[[repo]]` tables): where the clone
/// is, the host and namespace of its identifier, its name and tracker.
pub fn custom_repos(home: &str, content: Option<&str>) -> (r: Result<Vec<RepoEntry>, String>)
    ensures
        match r {
            Ok(v) => custom_repos_of(home@, opt_text(content)) == Ok::<Seq<crate::domains::RepoEntryView>, Seq<char>>(
                Seq::new(v@.len(), |k: int| v@[k]@),
            ),
            Err(e) => custom_repos_of(home@, opt_text(content)) == Err::<Seq<crate::domains::RepoEntryView>, Seq<char>>(e@),
        },
{
    proof {
        reveal_strlit("");
    }
    let text = match content {
        Some(c) => c,
        None => "",
    };
    let secs = table_sections(text, "repo");
    let ghost sv = table_views(secs@);
    let mut out: Vec<RepoEntry> = Vec::new();
    let mut i: usize = 0;
    assert(Seq::new(out@.len(), |k: int| out@[k]@) =~= Seq::<crate::domains::RepoEntryView>::empty());
    while i < secs.len()
        invariant
            i <= secs@.len(),
            sv == table_views(secs@),
            sv == tables_of(text@, "repo"@),
            text@ == (match opt_text(content) {
                Some(c) => c,
                None => Seq::<char>::empty(),
            }),
            repos_of_tables(home@, sv, i as nat) == Ok::<Seq<crate::domains::RepoEntryView>, Seq<char>>(
                Seq::new(out@.len(), |k: int| out@[k]@),
            ),
        decreases secs.len() - i,
    {
        assert(sv[i as int] == pair_views(secs@[i as int]@));
        match repo_entry(home, secs[i].as_slice()) {
            Ok(e) => {
                let ghost before = Seq::new(out@.len(), |k: int| out@[k]@);
                out.push(e);
                assert(Seq::new(out@.len(), |k: int| out@[k]@) =~= before.push(e@));
            },
            Err(e) => {
                assert(repos_of_tables(home@, sv, sv.len()) == Err::<Seq<crate::domains::RepoEntryView>, Seq<char>>(e@)) by {
                    lemma_repos_error_stays(home@, sv, (i + 1) as nat, sv.len(), e@);
                }
                return Err(e);
            },
        }
        i = i + 1;
    }
    Ok(out)
}

/// Once a table fails to read, the list of repositories stays that error.
proof fn lemma_repos_error_stays(
    home: Seq<char>,
    secs: Seq<Seq<(Seq<char>, Seq<char>)>>,
    n: nat,
    m: nat,
    e: Seq<char>,
)
    requires
        0 < n <= m <= secs.len(),
        repos_of_tables(home, secs, n) == Err::<Seq<crate::domains::RepoEntryView>, Seq<char>>(e),
    ensures
        repos_of_tables(home, secs, m) == Err::<Seq<crate::domains::RepoEntryView>, Seq<char>>(e),
    decreases m - n,
{
    if n < m {
        lemma_repos_error_stays(home, secs, n, (m - 1) as nat, e);
    }
}


// ---------------------------------------------------------------------------
// Laws of the tracker settings
// ---------------------------------------------------------------------------

proof fn lemma_first_shared_none(a: Seq<Seq<char>>, b: Seq<Seq<char>>)
    requires
        first_shared(a, b) is None,
    ensures
        forall|k: int| 0 <= k < a.len() ==> !b.contains(#[trigger] a[k]),
    decreases a.len(),
{
    if a.len() > 0 {
        lemma_first_shared_none(a.drop_first(), b);
        assert forall|k: int| 0 <= k < a.len() implies !b.contains(#[trigger] a[k]) by {
            if k > 0 {
                assert(a[k] == a.drop_first()[k - 1]);
            }
        }
    }
}

proof fn lemma_clash_with_none(ts: Seq<TrackerView>, i: int, j: int)
    requires
        0 <= i < ts.len(),
        0 <= j,
        clash_with(ts, i, j) is None,
    ensures
        forall|jj: int| j <= jj < ts.len() ==> first_shared(ts[i].ns, #[trigger] ts[jj].ns) is None,
    decreases ts.len() - j,
{
    if j < ts.len() {
        lemma_clash_with_none(ts, i, j + 1);
    }
}

proof fn lemma_clash_from_none(ts: Seq<TrackerView>, i: int)
    requires
        0 <= i,
        clash_from(ts, i) is None,
    ensures
        forall|a: int, b: int| i <= a < b < ts.len() ==> first_shared(#[trigger] ts[a].ns, #[trigger] ts[b].ns) is None,
    decreases ts.len() - i,
{
    if i < ts.len() {
        lemma_clash_with_none(ts, i, i + 1);
        lemma_clash_from_none(ts, i + 1);
    }
}

/// Every namespace belongs to at most one tracker, and `default_tracker`,
/// when set, names a configured tracker: settings that break either are
/// refused.
pub proof fn law_trackers_are_unambiguous(home: Seq<char>, content: Option<Seq<char>>)
    requires
        trackers_of(home, content) is Ok,
    ensures
        ({
            let v = trackers_of(home, content)->Ok_0;
            &&& forall|a: int, b: int, k: int|
                0 <= a < b < v.entries.len() && 0 <= k < v.entries[a].ns.len()
                    ==> !(#[trigger] v.entries[b].ns).contains(#[trigger] v.entries[a].ns[k])
            &&& (v.default matches Some(d) ==> has_tracker(v.entries, d))
        }),
{
    let text = match content {
        Some(c) => c,
        None => Seq::empty(),
    };
    let secs = tables_of(text, "tracker"@);
    let ts = trackers_of_tables(home, secs, secs.len())->Ok_0;
    lemma_clash_from_none(ts, 0);
    assert forall|a: int, b: int, k: int|
        0 <= a < b < ts.len() && 0 <= k < ts[a].ns.len() implies !(#[trigger] ts[b].ns).contains(#[trigger] ts[a].ns[k]) by {
        assert(first_shared(ts[a].ns, ts[b].ns) is None);
        lemma_first_shared_none(ts[a].ns, ts[b].ns);
    }
}

/// The default tracker, when one is configured, is one of the listed
/// trackers, and the list of all trackers puts it first.
pub proof fn law_default_tracker_comes_first(v: TrackersView)
    requires
        default_of(v) is Ok,
    ensures
        all_of(v).len() > 0,
        all_of(v)[0] == default_of(v)->Ok_0,
{
    let n = default_name_of(v)->0;
    let names = tracker_names(v.entries);
    let i = crate::text::first_index(names, n)->0;
    assert(crate::text::is_first(names, n, i));
    assert forall|j: int| 0 <= j < i implies Some(#[trigger] v.entries[j].name) != Some(n) by {
        assert(names[j] == v.entries[j].name);
    }
    assert(names[i] == v.entries[i].name);
    lemma_select_none_before(v.entries, Some(n), i as nat);
    assert(select_named(v.entries, Some(n), true, (i + 1) as nat) == seq![v.entries[i]]);
    lemma_select_first(v.entries, Some(n), (i + 1) as nat, v.entries.len());
}

proof fn lemma_select_none_before(ts: Seq<TrackerView>, name: Option<Seq<char>>, n: nat)
    requires
        n <= ts.len(),
        forall|j: int| 0 <= j < n ==> Some(ts[j].name) != name,
    ensures
        select_named(ts, name, true, n) == Seq::<TrackerView>::empty(),
    decreases n,
{
    if n > 0 {
        lemma_select_none_before(ts, name, (n - 1) as nat);
    }
}

proof fn lemma_select_first(ts: Seq<TrackerView>, name: Option<Seq<char>>, n: nat, m: nat)
    requires
        0 < n <= m <= ts.len(),
        select_named(ts, name, true, n).len() > 0,
    ensures
        select_named(ts, name, true, m).len() > 0,
        select_named(ts, name, true, m)[0] == select_named(ts, name, true, n)[0],
    decreases m - n,
{
    if n < m {
        lemma_select_first(ts, name, n, (m - 1) as nat);
    }
}


proof fn lemma_env_set_keeps_first(env: Seq<(Seq<char>, Seq<char>)>, var: Seq<char>, value: Seq<char>)
    requires
        env.len() > 0,
        env[0].0 != var,
    ensures
        env_set(env, var, value).len() > 0,
        env_set(env, var, value)[0] == env[0],
{
    if exists|i: int| is_first_var(env, var, i) {
        let i = choose|i: int| is_first_var(env, var, i);
        assert(i != 0);
    }
}

proof fn lemma_upper_name_is_name(k: Seq<char>)
    requires
        valid_table_key(k),
        crate::text::ascii_upper(k) == seq!['N', 'A', 'M', 'E'],
    ensures
        reserved_key(k),
{
    assert(crate::text::ascii_upper(k).len() == k.len());
    assert(seq!['N', 'A', 'M', 'E'].len() == 4);
    assert(k.len() == 4);
    assert forall|i: int| 0 <= i < 4 implies #[trigger] k[i] == seq!['n', 'a', 'm', 'e'][i] by {
        assert(crate::text::ascii_upper(k)[i] == crate::text::upper_char(k[i]));
        assert(key_char(k[i]));
    }
    assert(k =~= seq!['n', 'a', 'm', 'e']);
}

/// A tracker plugin always gets its instance name as `WSM_TRACKER_NAME`,
/// first in its environment: no key of a table can override it (`name`
/// is reserved, and keys are lower case).
pub proof fn law_instance_name_always_passed(name: Seq<char>, sec: Seq<(Seq<char>, Seq<char>)>, n: nat)
    requires
        forall|i: int| 0 <= i < sec.len() ==> valid_table_key(#[trigger] sec[i].0),
    ensures
        tracker_env(name, sec, n).len() > 0,
        tracker_env(name, sec, n)[0] == (env_prefix() + seq!['N', 'A', 'M', 'E'], name),
    decreases n,
{
    if n > 0 && n <= sec.len() {
        law_instance_name_always_passed(name, sec, (n - 1) as nat);
        let before = tracker_env(name, sec, (n - 1) as nat);
        let (k, v) = sec[n - 1];
        if !reserved_key(k) {
            let var = env_prefix() + crate::text::ascii_upper(k);
            if var == env_prefix() + seq!['N', 'A', 'M', 'E'] {
                assert(var.subrange(env_prefix().len() as int, var.len() as int) =~= crate::text::ascii_upper(k));
                assert((env_prefix() + seq!['N', 'A', 'M', 'E']).subrange(
                    env_prefix().len() as int,
                    var.len() as int,
                ) =~= seq!['N', 'A', 'M', 'E']);
                lemma_upper_name_is_name(k);
            }
            lemma_env_set_keeps_first(before, var, v);
        }
    }
}

/// A key of the plugin's environment carries the `WSM_TRACKER_` prefix.
pub open spec fn env_prefixed(var: Seq<char>) -> bool {
    var.len() >= env_prefix().len() && var.subrange(0, env_prefix().len() as int) == env_prefix()
}

proof fn lemma_upper_path_or_ns(k: Seq<char>)
    requires
        valid_table_key(k),
        crate::text::ascii_upper(k) == seq!['P', 'A', 'T', 'H'] || crate::text::ascii_upper(k) == seq!['N', 'S'],
    ensures
        reserved_key(k),
{
    let u = crate::text::ascii_upper(k);
    assert(u.len() == k.len());
    if u == seq!['P', 'A', 'T', 'H'] {
        assert forall|i: int| 0 <= i < 4 implies #[trigger] k[i] == seq!['p', 'a', 't', 'h'][i] by {
            assert(u[i] == crate::text::upper_char(k[i]));
            assert(key_char(k[i]));
        }
        assert(k =~= seq!['p', 'a', 't', 'h']);
    } else {
        assert forall|i: int| 0 <= i < 2 implies #[trigger] k[i] == seq!['n', 's'][i] by {
            assert(u[i] == crate::text::upper_char(k[i]));
            assert(key_char(k[i]));
        }
        assert(k =~= seq!['n', 's']);
    }
}

proof fn lemma_first_var_exists(env: Seq<(Seq<char>, Seq<char>)>, var: Seq<char>, j: int)
    requires
        0 <= j < env.len(),
        env[j].0 == var,
    ensures
        exists|i: int| is_first_var(env, var, i),
    decreases j,
{
    if forall|k: int| 0 <= k < j ==> env[k].0 != var {
        assert(is_first_var(env, var, j));
    } else {
        let k = choose|k: int| 0 <= k < j && env[k].0 == var;
        lemma_first_var_exists(env, var, k);
    }
}

/// The environment a tracker plugin gets is well keyed: every key carries
/// the `WSM_TRACKER_` prefix, no key comes twice (a repeated table key
/// replaces the value), and the keys the library reads itself (`path`,
/// `ns`) are never exported.
pub proof fn law_tracker_env_keys(name: Seq<char>, sec: Seq<(Seq<char>, Seq<char>)>, n: nat)
    requires
        forall|i: int| 0 <= i < sec.len() ==> valid_table_key(#[trigger] sec[i].0),
    ensures
        forall|i: int| 0 <= i < tracker_env(name, sec, n).len() ==> env_prefixed(#[trigger] tracker_env(name, sec, n)[i].0),
        forall|i: int, j: int| 0 <= i < j < tracker_env(name, sec, n).len()
            ==> #[trigger] tracker_env(name, sec, n)[i].0 != #[trigger] tracker_env(name, sec, n)[j].0,
        forall|i: int| 0 <= i < tracker_env(name, sec, n).len() ==> {
            let var = #[trigger] tracker_env(name, sec, n)[i].0;
            var != env_prefix() + seq!['P', 'A', 'T', 'H'] && var != env_prefix() + seq!['N', 'S']
        },
    decreases n,
{
    let env = tracker_env(name, sec, n);
    if n == 0 || n > sec.len() {
        let var = env_prefix() + seq!['N', 'A', 'M', 'E'];
        assert(var.subrange(0, env_prefix().len() as int) =~= env_prefix());
        assert(var.len() == 16);
        assert(var[12] == 'N');
        assert((env_prefix() + seq!['P', 'A', 'T', 'H'])[12] == 'P');
        assert((env_prefix() + seq!['N', 'S']).len() == 14);
    } else {
        law_tracker_env_keys(name, sec, (n - 1) as nat);
        let before = tracker_env(name, sec, (n - 1) as nat);
        let (k, v) = sec[n - 1];
        if !reserved_key(k) {
            let var = env_prefix() + crate::text::ascii_upper(k);
            assert(var.subrange(0, env_prefix().len() as int) =~= env_prefix());
            assert(env_prefixed(var));
            assert(var != env_prefix() + seq!['P', 'A', 'T', 'H'] && var != env_prefix() + seq!['N', 'S']) by {
                if var == env_prefix() + seq!['P', 'A', 'T', 'H'] {
                    assert(var.subrange(12, var.len() as int) =~= crate::text::ascii_upper(k));
                    assert((env_prefix() + seq!['P', 'A', 'T', 'H']).subrange(12, var.len() as int) =~= seq!['P', 'A', 'T', 'H']);
                    lemma_upper_path_or_ns(k);
                }
                if var == env_prefix() + seq!['N', 'S'] {
                    assert(var.subrange(12, var.len() as int) =~= crate::text::ascii_upper(k));
                    assert((env_prefix() + seq!['N', 'S']).subrange(12, var.len() as int) =~= seq!['N', 'S']);
                    lemma_upper_path_or_ns(k);
                }
            }
            if exists|i: int| is_first_var(before, var, i) {
                let i = choose|i: int| is_first_var(before, var, i);
                assert(env == before.update(i, (var, v)));
                assert forall|j: int| 0 <= j < env.len() implies #[trigger] env[j].0 == before[j].0 by {}
            } else {
                assert(env == before.push((var, v)));
                assert forall|j: int| 0 <= j < before.len() implies #[trigger] before[j].0 != var by {
                    if before[j].0 == var {
                        lemma_first_var_exists(before, var, j);
                    }
                }
                assert forall|i: int, j: int| 0 <= i < j < env.len() implies #[trigger] env[i].0 != #[trigger] env[j].0 by {
                    if j == before.len() {
                        assert(env[i].0 == before[i].0);
                    } else {
                        assert(env[i].0 == before[i].0 && env[j].0 == before[j].0);
                    }
                }
            }
        }
    }
}

/// The environment of a tracker is well keyed: `WSM_TRACKER_NAME` with
/// its name first, every key prefixed, no key twice, and neither
/// `WSM_TRACKER_PATH` nor `WSM_TRACKER_NS`.
pub open spec fn env_well_keyed(name: Seq<char>, env: Seq<(Seq<char>, Seq<char>)>) -> bool {
    &&& env.len() > 0
    &&& env[0] == (env_prefix() + seq!['N', 'A', 'M', 'E'], name)
    &&& forall|i: int| 0 <= i < env.len() ==> env_prefixed(#[trigger] env[i].0)
    &&& forall|i: int, j: int| 0 <= i < j < env.len() ==> #[trigger] env[i].0 != #[trigger] env[j].0
    &&& forall|i: int| 0 <= i < env.len() ==> {
        let var = #[trigger] env[i].0;
        var != env_prefix() + seq!['P', 'A', 'T', 'H'] && var != env_prefix() + seq!['N', 'S']
    }
}

proof fn lemma_tables_keys_valid(content: Seq<char>, header: Seq<char>)
    ensures
        forall|t: int| 0 <= t < tables_of(content, header).len() ==> keys_valid(#[trigger] tables_of(content, header)[t]),
{
    let marker = seq!['[', '['] + header + seq![']', ']'];
    let ls = lines(content);
    lemma_scanned_keys_valid(ls, marker, ls.len());
    let (done, current) = scan_tables(ls, marker, ls.len());
    assert forall|t: int| 0 <= t < tables_of(content, header).len() implies keys_valid(#[trigger] tables_of(content, header)[t]) by {
        if t < done.len() {
            assert(tables_of(content, header)[t] == done[t]);
        }
    }
}

proof fn lemma_tracker_tables(home: Seq<char>, secs: Seq<Seq<(Seq<char>, Seq<char>)>>, n: nat)
    requires
        forall|t: int| 0 <= t < secs.len() ==> keys_valid(#[trigger] secs[t]),
    ensures
        trackers_of_tables(home, secs, n) matches Ok(ts) ==> forall|i: int| 0 <= i < ts.len() ==> env_well_keyed(
            #[trigger] ts[i].name,
            ts[i].env,
        ),
    decreases n,
{
    if n > 0 && n <= secs.len() {
        lemma_tracker_tables(home, secs, (n - 1) as nat);
        let sec = secs[n - 1];
        assert(keys_valid(sec));
        if let Ok(t) = tracker_of_table(home, sec) {
            law_instance_name_always_passed(t.name, sec, sec.len());
            law_tracker_env_keys(t.name, sec, sec.len());
            assert(env_well_keyed(t.name, t.env));
            if let Ok(before) = trackers_of_tables(home, secs, (n - 1) as nat) {
                let ts = before.push(t);
                assert forall|i: int| 0 <= i < ts.len() implies env_well_keyed(#[trigger] ts[i].name, ts[i].env) by {
                    if i < before.len() {
                        assert(ts[i] == before[i]);
                    }
                }
            }
        }
    }
}

/// Every tracker that the settings configure gets a well keyed
/// environment: its instance name first as `WSM_TRACKER_NAME`, every key
/// prefixed `WSM_TRACKER_`, no key twice, and the keys the library reads
/// itself (`path`, `ns`) never exported.
pub proof fn law_configured_trackers_env_well_keyed(home: Seq<char>, content: Option<Seq<char>>)
    ensures
        trackers_of(home, content) matches Ok(v) ==> forall|i: int| 0 <= i < v.entries.len() ==> env_well_keyed(
            #[trigger] v.entries[i].name,
            v.entries[i].env,
        ),
{
    let text = match content {
        Some(c) => c,
        None => Seq::empty(),
    };
    let secs = tables_of(text, "tracker"@);
    lemma_tables_keys_valid(text, "tracker"@);
    lemma_tracker_tables(home, secs, secs.len());
}

} // verus!
