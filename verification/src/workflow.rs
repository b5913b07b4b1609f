//! The use cases that change the machine, `open` and `remove`, as the
//! library decides them: the order of the roles (worktree, then session,
//! then devcontainers; the reverse to tear down), where they stop, and
//! what they answer. `remove` is a plan of commands made from what the
//! caller read of the machine; `open` is a step function from what the
//! last role answered to the next role to run. Running the commands is the
//! caller's.
use vstd::prelude::*;
use crate::text::{lines, nonempty_lines, string_views};
use crate::domains::{herdr_session_text, RepoRef, WorkspaceId};
use crate::settings::{opt_text, SessionManager};
use crate::session::{blocks_main_removal_text, invocation_view, removal_text, Invocation};
use crate::devcontainer::Outcome;

verus! {

// ---------------------------------------------------------------------------
// remove
// ---------------------------------------------------------------------------

/// The programs the use cases run.
#[derive(Clone, Copy, Debug, PartialEq, Eq, Structural)]
pub enum Program {
    Tmux,
    Herdr,
    Docker,
    Git,
}

/// The program of a session manager.
pub open spec fn manager_program(m: SessionManager) -> Program {
    match m {
        SessionManager::Tmux => Program::Tmux,
        SessionManager::Herdr => Program::Herdr,
    }
}

/// A command to run: its program, its arguments, and the socket of the
/// herdr session to drive (`HERDR_SOCKET_PATH`), if any. Failures of a
/// teardown command are ignored: tearing down is idempotent.
pub struct Call {
    pub program: Program,
    pub args: Vec<String>,
    pub socket: Option<String>,
}

/// What the library knows of a command.
pub open spec fn call_view(c: Call) -> (Program, Seq<Seq<char>>, Option<Seq<char>>) {
    (
        c.program,
        string_views(c.args@),
        match c.socket {
            Some(s) => Some(s@),
            None => None,
        },
    )
}

/// The views of a list of commands.
pub open spec fn call_views(v: Seq<Call>) -> Seq<(Program, Seq<Seq<char>>, Option<Seq<char>>)> {
    Seq::new(v.len(), |i: int| call_view(v[i]))
}

/// The teardown of a Workspace, in order: its sessions (see
/// [`removal_text`]), then each container listed by the label query
/// (`docker rm -f`), then, for an issue whose repository the store
/// resolves (`worktree`: the clone and the Workspace path), its worktree.
/// Removing `main` while the herdr session of the repository holds other
/// workspaces is refused, and then nothing is torn down.
pub open spec fn remove_plan_text(
    repo: (Seq<char>, Seq<char>),
    id: Seq<char>,
    main: bool,
    tmux_configured: bool,
    sessions_output: Option<Seq<char>>,
    workspaces_output: Option<Seq<char>>,
    containers_output: Option<Seq<char>>,
    worktree: Option<(Seq<char>, Seq<char>)>,
) -> Result<Seq<(Program, Seq<Seq<char>>, Option<Seq<char>>)>, Seq<char>> {
    if main && blocks_main_removal_text(repo, sessions_output, workspaces_output) {
        Err("herdr session has open issue workspaces: "@ + herdr_session_text(repo))
    } else {
        let sessions = removal_text(repo, id, main, tmux_configured, sessions_output, workspaces_output);
        let ids = match containers_output {
            Some(out) => nonempty_lines(lines(out), lines(out).len()),
            None => Seq::<Seq<char>>::empty(),
        };
        Ok(
            Seq::new(sessions.len(), |i: int| (manager_program(sessions[i].0), sessions[i].1, sessions[i].2))
                + Seq::new(ids.len(), |i: int| (Program::Docker, seq!["rm"@, "-f"@, ids[i]], None::<Seq<char>>))
                + match worktree {
                Some((clone, path)) => if main {
                    Seq::empty()
                } else {
                    seq![(Program::Git, seq!["-C"@, clone, "worktree"@, "remove"@, path], None::<Seq<char>>)]
                },
                None => Seq::empty(),
            },
        )
    }
}

fn program_call(c: Invocation) -> (r: Call)
    ensures
        call_view(r) == (manager_program(invocation_view(c).0), invocation_view(c).1, invocation_view(c).2),
{
    let program = match c.manager {
        SessionManager::Tmux => Program::Tmux,
        SessionManager::Herdr => Program::Herdr,
    };
    Call { program, args: c.args, socket: c.socket }
}

/// The plan of `remove`, from what the caller read: whether tmux is
/// configured, herdr's session and workspace lists, what the container
/// label query printed (`docker ps -a --format {{.ID}}`), and the clone
/// and Workspace path when the store resolves the repository.
pub fn remove_plan(
    repo: &RepoRef,
    id: &WorkspaceId,
    tmux_configured: bool,
    sessions_output: Option<&str>,
    workspaces_output: Option<&str>,
    containers_output: Option<&str>,
    worktree: Option<(&str, &str)>,
) -> (r: Result<Vec<Call>, String>)
    ensures
        match r {
            Ok(calls) => remove_plan_text(
                repo@,
                id.text(),
                id is Main,
                tmux_configured,
                opt_text(sessions_output),
                opt_text(workspaces_output),
                opt_text(containers_output),
                match worktree {
                    Some((c, p)) => Some((c@, p@)),
                    None => None,
                },
            ) == Ok::<Seq<(Program, Seq<Seq<char>>, Option<Seq<char>>)>, Seq<char>>(call_views(calls@)),
            Err(e) => remove_plan_text(
                repo@,
                id.text(),
                id is Main,
                tmux_configured,
                opt_text(sessions_output),
                opt_text(workspaces_output),
                opt_text(containers_output),
                match worktree {
                    Some((c, p)) => Some((c@, p@)),
                    None => None,
                },
            ) == Err::<Seq<(Program, Seq<Seq<char>>, Option<Seq<char>>)>, Seq<char>>(e@),
        },
{
    if id.is_main() && crate::session::herdr_blocks_main_removal(repo, sessions_output, workspaces_output) {
        return Err(crate::usecases::remove_refusal(repo));
    }
    let sessions = crate::session::remove_workspace_sessions(repo, id, tmux_configured, sessions_output, workspaces_output);
    let ghost sv = crate::session::invocation_views(sessions@);
    let mut out: Vec<Call> = Vec::new();
    let mut sessions = sessions;
    let n = sessions.len();
    let ghost head = Seq::new(sv.len(), |i: int| (manager_program(sv[i].0), sv[i].1, sv[i].2));
    let mut i: usize = 0;
    while i < n
        invariant
            i <= n,
            n == sv.len(),
            sessions@.len() == n - i,
            forall|k: int| 0 <= k < n - i ==> invocation_view(#[trigger] sessions@[k]) == sv[i + k],
            call_views(out@) =~= head.subrange(0, i as int),
            head == Seq::new(sv.len(), |i: int| (manager_program(sv[i].0), sv[i].1, sv[i].2)),
        decreases n - i,
    {
        let c = sessions.remove(0);
        let call = program_call(c);
        let ghost before = call_views(out@);
        out.push(call);
        assert(call_views(out@) =~= before.push(call_view(call)));
        i = i + 1;
    }
    assert(head.subrange(0, n as int) =~= head);
    let ids = crate::devcontainer::down(containers_output);
    let ghost iv = string_views(ids@);
    let ghost mid = call_views(out@);
    let m = ids.len();
    let mut k: usize = 0;
    while k < m
        invariant
            k <= m,
            m == ids@.len(),
            iv == string_views(ids@),
            call_views(out@) =~= mid + Seq::new(k as nat, |j: int| (Program::Docker, seq!["rm"@, "-f"@, iv[j]], None::<Seq<char>>)),
        decreases m - k,
    {
        let args = crate::devcontainer::remove_args(ids[k].as_str());
        let call = Call { program: Program::Docker, args, socket: None };
        assert(iv[k as int] == ids@[k as int]@);
        let ghost before = call_views(out@);
        out.push(call);
        assert(call_views(out@) =~= before.push(call_view(call)));
        k = k + 1;
    }
    let ghost docker = Seq::new(m as nat, |j: int| (Program::Docker, seq!["rm"@, "-f"@, iv[j]], None::<Seq<char>>));
    assert(call_views(out@) =~= head + docker);
    if !id.is_main() {
        if let Some((clone, path)) = worktree {
            let call = Call { program: Program::Git, args: crate::worktree::remove(clone, path), socket: None };
            let ghost before = call_views(out@);
            out.push(call);
            assert(call_views(out@) =~= before.push(call_view(call)));
        }
    }
    let ghost wt = match worktree {
        Some((c, p)) => Some((c@, p@)),
        None => None,
    };
    let ghost tail: Seq<(Program, Seq<Seq<char>>, Option<Seq<char>>)> = match wt {
        Some((clone, path)) => if id is Main {
            Seq::empty()
        } else {
            seq![(Program::Git, seq!["-C"@, clone, "worktree"@, "remove"@, path], None::<Seq<char>>)]
        },
        None => Seq::empty(),
    };
    assert(call_views(out@) =~= head + docker + tail);
    assert(sv == removal_text(repo@, id.text(), id is Main, tmux_configured, opt_text(sessions_output), opt_text(workspaces_output)));
    assert(!(id is Main && blocks_main_removal_text(repo@, opt_text(sessions_output), opt_text(workspaces_output))));
    Ok(out)
}

// ---------------------------------------------------------------------------
// open
// ---------------------------------------------------------------------------

/// Where an `open` stands: about to begin, waiting for the worktree, for
/// the session, for the `i`-th devcontainer config, or over.
#[derive(Clone, Copy, Debug, PartialEq, Eq, Structural)]
pub enum OpenNext {
    Begin,
    Worktree,
    Session,
    Config(usize),
    Over,
}

/// An `open` in progress: the Workspace, the session manager, the
/// Workspace path, the devcontainer configs asked for, where it stands,
/// and the outcome of each config brought up so far (with its name).
pub struct OpenState {
    pub repo: RepoRef,
    pub id: WorkspaceId,
    pub manager: SessionManager,
    pub workspace: String,
    pub configs: Vec<String>,
    pub next: OpenNext,
    pub outcomes: Vec<(Outcome, String)>,
}

/// What the library knows of an `open` in progress.
pub struct OpenStateView {
    pub repo: (Seq<char>, Seq<char>),
    pub id: Seq<char>,
    pub main: bool,
    pub manager: SessionManager,
    pub workspace: Seq<char>,
    pub configs: Seq<Seq<char>>,
    pub next: OpenNext,
    pub outcomes: Seq<(Outcome, Seq<char>)>,
}

impl View for OpenState {
    type V = OpenStateView;

    open spec fn view(&self) -> OpenStateView {
        OpenStateView {
            repo: self.repo@,
            id: self.id.text(),
            main: self.id is Main,
            manager: self.manager,
            workspace: self.workspace@,
            configs: string_views(self.configs@),
            next: self.next,
            outcomes: Seq::new(self.outcomes@.len(), |i: int| (self.outcomes@[i].0, self.outcomes@[i].1@)),
        }
    }
}

/// What the last role answered: whether the Workspace directory exists
/// (to begin), whether adding the worktree, preparing the session, or
/// bringing the current config up succeeded.
pub enum OpenEvent {
    Begin(bool),
    WorktreeAdded(Result<(), String>),
    SessionReady(Result<(), String>),
    ConfigUp(Result<Outcome, String>),
}

/// What the library knows of an answer.
pub enum OpenEventView {
    Begin(bool),
    WorktreeAdded(Result<(), Seq<char>>),
    SessionReady(Result<(), Seq<char>>),
    ConfigUp(Result<Outcome, Seq<char>>),
}

impl View for OpenEvent {
    type V = OpenEventView;

    open spec fn view(&self) -> OpenEventView {
        match self {
            OpenEvent::Begin(b) => OpenEventView::Begin(*b),
            OpenEvent::WorktreeAdded(r) => OpenEventView::WorktreeAdded(match r {
                Ok(()) => Ok(()),
                Err(e) => Err(e@),
            }),
            OpenEvent::SessionReady(r) => OpenEventView::SessionReady(match r {
                Ok(()) => Ok(()),
                Err(e) => Err(e@),
            }),
            OpenEvent::ConfigUp(r) => OpenEventView::ConfigUp(match r {
                Ok(o) => Ok(*o),
                Err(e) => Err(e@),
            }),
        }
    }
}

/// The next role to run: add the worktree on this branch, prepare the
/// session, bring the `i`-th config up (and wire its window), or answer
/// (the message) or fail (the error).
pub enum OpenAction {
    AddWorktree(String),
    EnsureSession,
    UpConfig(usize),
    Finish(String),
    Fail(String),
}

/// What the library knows of an action.
pub enum OpenActionView {
    AddWorktree(Seq<char>),
    EnsureSession,
    UpConfig(usize),
    Finish(Seq<char>),
    Fail(Seq<char>),
}

impl View for OpenAction {
    type V = OpenActionView;

    open spec fn view(&self) -> OpenActionView {
        match self {
            OpenAction::AddWorktree(b) => OpenActionView::AddWorktree(b@),
            OpenAction::EnsureSession => OpenActionView::EnsureSession,
            OpenAction::UpConfig(i) => OpenActionView::UpConfig(*i),
            OpenAction::Finish(m) => OpenActionView::Finish(m@),
            OpenAction::Fail(e) => OpenActionView::Fail(e@),
        }
    }
}

/// An answer fits where the `open` stands: the one the last action asked
/// for. Nothing fits once it is over.
pub open spec fn open_fits(s: OpenStateView, e: OpenEventView) -> bool {
    match s.next {
        OpenNext::Begin => e is Begin,
        OpenNext::Worktree => e is WorktreeAdded,
        OpenNext::Session => e is SessionReady,
        OpenNext::Config(i) => e is ConfigUp && i < s.configs.len(),
        OpenNext::Over => false,
    }
}

/// The message an `open` answers with.
pub open spec fn open_answer(s: OpenStateView) -> Seq<char> {
    crate::usecases::open_message_text(s.repo, s.id, s.main, s.manager, s.outcomes)
}

/// After the session: the first config, or the answer when there is none.
pub open spec fn after_session(s: OpenStateView) -> (OpenStateView, OpenActionView) {
    if s.configs.len() > 0 {
        (OpenStateView { next: OpenNext::Config(0), ..s }, OpenActionView::UpConfig(0))
    } else {
        (OpenStateView { next: OpenNext::Over, ..s }, OpenActionView::Finish(open_answer(s)))
    }
}

/// One step of `open`: the worktree first (for an issue whose Workspace
/// directory is missing), then the session, then each config in order;
/// the answer after the last; and at the first failure, the failure (a
/// config that does not come up fails with `devcontainer up failed for
/// <config>`), with nothing after it.
pub open spec fn open_step_spec(s: OpenStateView, e: OpenEventView) -> (OpenStateView, OpenActionView) {
    match e {
        OpenEventView::Begin(exists) => if !s.main && !exists {
            (OpenStateView { next: OpenNext::Worktree, ..s }, OpenActionView::AddWorktree(crate::domains::branch_name_text(s.id)))
        } else {
            (OpenStateView { next: OpenNext::Session, ..s }, OpenActionView::EnsureSession)
        },
        OpenEventView::WorktreeAdded(r) => match r {
            Ok(()) => (OpenStateView { next: OpenNext::Session, ..s }, OpenActionView::EnsureSession),
            Err(m) => (OpenStateView { next: OpenNext::Over, ..s }, OpenActionView::Fail(m)),
        },
        OpenEventView::SessionReady(r) => match r {
            Ok(()) => after_session(s),
            Err(m) => (OpenStateView { next: OpenNext::Over, ..s }, OpenActionView::Fail(m)),
        },
        OpenEventView::ConfigUp(r) => match s.next {
            OpenNext::Config(i) => match r {
                Ok(o) => {
                    let outcomes = s.outcomes.push((o, crate::devcontainer::config_name_text(s.workspace, s.configs[i as int])));
                    if i + 1 < s.configs.len() {
                        (OpenStateView { next: OpenNext::Config((i + 1) as usize), outcomes, ..s }, OpenActionView::UpConfig((i + 1) as usize))
                    } else {
                        let done = OpenStateView { next: OpenNext::Over, outcomes, ..s };
                        (done, OpenActionView::Finish(open_answer(done)))
                    }
                },
                Err(_) => (
                    OpenStateView { next: OpenNext::Over, ..s },
                    OpenActionView::Fail("devcontainer up failed for "@ + s.configs[i as int]),
                ),
            },
            _ => (OpenStateView { next: OpenNext::Over, ..s }, OpenActionView::Fail(Seq::empty())),
        },
    }
}

/// An `open` about to begin.
pub fn open_start(repo: RepoRef, id: WorkspaceId, manager: SessionManager, workspace: String, configs: Vec<String>) -> (r: OpenState)
    ensures
        r@.repo == repo@,
        r@.id == id.text(),
        r@.main == (id is Main),
        r@.manager == manager,
        r@.workspace == workspace@,
        r@.configs == string_views(configs@),
        r@.next == OpenNext::Begin,
        r@.outcomes.len() == 0,
{
    OpenState { repo, id, manager, workspace, configs, next: OpenNext::Begin, outcomes: Vec::new() }
}

/// Whether an answer fits where the `open` stands.
pub fn open_accepts(state: &OpenState, event: &OpenEvent) -> (b: bool)
    ensures
        b == open_fits(state@, event@),
{
    match state.next {
        OpenNext::Begin => matches!(event, OpenEvent::Begin(_)),
        OpenNext::Worktree => matches!(event, OpenEvent::WorktreeAdded(_)),
        OpenNext::Session => matches!(event, OpenEvent::SessionReady(_)),
        OpenNext::Config(i) => matches!(event, OpenEvent::ConfigUp(_)) && i < state.configs.len(),
        OpenNext::Over => false,
    }
}

fn finish(state: &OpenState) -> (m: String)
    ensures
        m@ == open_answer(state@),
{
    crate::usecases::open_message(&state.repo, &state.id, state.manager, &state.outcomes)
}

/// One step of `open`, from where it stands and what the last role
/// answered to where it stands next and the next role to run.
pub fn open_step(state: OpenState, event: OpenEvent) -> (r: (OpenState, OpenAction))
    requires
        open_fits(state@, event@),
    ensures
        (r.0@, r.1@) == open_step_spec(state@, event@),
{
    let ghost s = state@;
    let mut state = state;
    match event {
        OpenEvent::Begin(exists) => {
            if !state.id.is_main() && !exists {
                let branch = crate::domains::branch_name(state.id.as_str());
                state.next = OpenNext::Worktree;
                assert(state@ =~= (OpenStateView { next: OpenNext::Worktree, ..s }));
                (state, OpenAction::AddWorktree(branch))
            } else {
                state.next = OpenNext::Session;
                assert(state@ =~= (OpenStateView { next: OpenNext::Session, ..s }));
                (state, OpenAction::EnsureSession)
            }
        },
        OpenEvent::WorktreeAdded(r) => match r {
            Ok(()) => {
                state.next = OpenNext::Session;
                assert(state@ =~= (OpenStateView { next: OpenNext::Session, ..s }));
                (state, OpenAction::EnsureSession)
            },
            Err(m) => {
                state.next = OpenNext::Over;
                assert(state@ =~= (OpenStateView { next: OpenNext::Over, ..s }));
                (state, OpenAction::Fail(m))
            },
        },
        OpenEvent::SessionReady(r) => match r {
            Ok(()) => {
                if state.configs.len() > 0 {
                    state.next = OpenNext::Config(0);
                    assert(state@ =~= (OpenStateView { next: OpenNext::Config(0), ..s }));
                    (state, OpenAction::UpConfig(0))
                } else {
                    let m = finish(&state);
                    state.next = OpenNext::Over;
                    assert(state@ =~= (OpenStateView { next: OpenNext::Over, ..s }));
                    (state, OpenAction::Finish(m))
                }
            },
            Err(m) => {
                state.next = OpenNext::Over;
                assert(state@ =~= (OpenStateView { next: OpenNext::Over, ..s }));
                (state, OpenAction::Fail(m))
            },
        },
        OpenEvent::ConfigUp(r) => {
            let i = match state.next {
                OpenNext::Config(i) => i,
                _ => 0,
            };
            assert(s.next == OpenNext::Config(i));
            assert(i < state.configs.len());
            assert(state.configs@[i as int]@ == s.configs[i as int]);
            match r {
                Ok(o) => {
                    let name = crate::devcontainer::config_name(state.workspace.as_str(), state.configs[i].as_str());
                    let ghost before = state@.outcomes;
                    state.outcomes.push((o, name));
                    let ghost outcomes = s.outcomes.push((o, crate::devcontainer::config_name_text(s.workspace, s.configs[i as int])));
                    assert(state@.outcomes =~= outcomes);
                    if i + 1 < state.configs.len() {
                        state.next = OpenNext::Config(i + 1);
                        assert(state@ =~= (OpenStateView { next: OpenNext::Config((i + 1) as usize), outcomes, ..s }));
                        (state, OpenAction::UpConfig(i + 1))
                    } else {
                        state.next = OpenNext::Over;
                        assert(state@ =~= (OpenStateView { next: OpenNext::Over, outcomes, ..s }));
                        let m = finish(&state);
                        (state, OpenAction::Finish(m))
                    }
                },
                Err(_) => {
                    let m = crate::usecases::up_failure(state.configs[i].as_str());
                    state.next = OpenNext::Over;
                    assert(state@ =~= (OpenStateView { next: OpenNext::Over, ..s }));
                    (state, OpenAction::Fail(m))
                },
            }
        },
    }
}

/// The actions an `open` asks for as it is answered, step by step, as long
/// as each answer fits.
pub open spec fn open_run(s: OpenStateView, events: Seq<OpenEventView>) -> Seq<OpenActionView>
    decreases events.len(),
{
    if events.len() == 0 || !open_fits(s, events[0]) {
        Seq::empty()
    } else {
        let (next, action) = open_step_spec(s, events[0]);
        seq![action] + open_run(next, events.drop_first())
    }
}

/// Every config from the `i`-th on coming up with its outcome.
pub open spec fn configs_up(outcomes: Seq<Outcome>, i: int) -> Seq<OpenEventView> {
    Seq::new((outcomes.len() - i) as nat, |k: int| OpenEventView::ConfigUp(Ok(outcomes[i + k])))
}

/// The answers of an `open` in which every role succeeds.
pub open spec fn all_succeed(add_worktree: bool, exists: bool, outcomes: Seq<Outcome>) -> Seq<OpenEventView> {
    seq![OpenEventView::Begin(exists)] + (if add_worktree {
        seq![OpenEventView::WorktreeAdded(Ok(()))]
    } else {
        Seq::empty()
    }) + seq![OpenEventView::SessionReady(Ok(()))] + configs_up(outcomes, 0)
}

/// The roles an `open` runs when all succeed: the worktree (for an issue
/// whose Workspace is missing), the session, then every config in order.
pub open spec fn open_roles(s: OpenStateView, add_worktree: bool) -> Seq<OpenActionView> {
    (if add_worktree {
        seq![OpenActionView::AddWorktree(crate::domains::branch_name_text(s.id))]
    } else {
        Seq::empty()
    }) + seq![OpenActionView::EnsureSession] + Seq::new(s.configs.len(), |i: int| OpenActionView::UpConfig(i as usize))
}

proof fn lemma_configs_in_order(s: OpenStateView, outcomes: Seq<Outcome>, i: int)
    requires
        s.next == OpenNext::Config(i as usize),
        0 <= i < s.configs.len(),
        outcomes.len() == s.configs.len(),
        s.configs.len() <= usize::MAX,
    ensures
        open_run(s, configs_up(outcomes, i)).len() == s.configs.len() - i,
        forall|k: int| 0 <= k < s.configs.len() - i - 1 ==> open_run(s, configs_up(outcomes, i))[k] == OpenActionView::UpConfig((i + 1 + k) as usize),
        open_run(s, configs_up(outcomes, i)).last() is Finish,
    decreases s.configs.len() - i,
{
    let evs = configs_up(outcomes, i);
    assert(evs[0] == OpenEventView::ConfigUp(Ok(outcomes[i])));
    assert(open_fits(s, evs[0]));
    let (next, action) = open_step_spec(s, evs[0]);
    if i + 1 < s.configs.len() {
        assert(evs.drop_first() =~= configs_up(outcomes, i + 1));
        lemma_configs_in_order(next, outcomes, i + 1);
        let rest = open_run(next, configs_up(outcomes, i + 1));
        assert(open_run(s, evs) == seq![action] + rest);
        assert forall|k: int| 0 <= k < s.configs.len() - i - 1 implies open_run(s, evs)[k] == OpenActionView::UpConfig((i + 1 + k) as usize) by {
            if k > 0 {
                assert(open_run(s, evs)[k] == rest[k - 1]);
            }
        }
    } else {
        assert(evs.drop_first() =~= Seq::<OpenEventView>::empty());
        assert(open_run(s, evs) == seq![action] + open_run(next, evs.drop_first()));
        assert(open_run(next, evs.drop_first()) =~= Seq::<OpenActionView>::empty());
    }
}

/// The roles of `open` come in their order: the worktree (only for an
/// issue whose Workspace is missing) before the session, the session
/// before the configs, the configs in the order asked for, and the answer
/// after the last of them.
pub proof fn law_open_roles_in_order(s: OpenStateView, exists: bool, outcomes: Seq<Outcome>)
    requires
        s.next == OpenNext::Begin,
        outcomes.len() == s.configs.len(),
        s.configs.len() <= usize::MAX,
    ensures
        ({
            let add = !s.main && !exists;
            let run = open_run(s, all_succeed(add, exists, outcomes));
            &&& run.len() == open_roles(s, add).len() + 1
            &&& forall|k: int| 0 <= k < open_roles(s, add).len() ==> run[k] == #[trigger] open_roles(s, add)[k]
            &&& run.last() is Finish
        }),
{
    let add = !s.main && !exists;
    let evs = all_succeed(add, exists, outcomes);
    let roles = open_roles(s, add);
    let n = s.configs.len();
    let cfg = configs_up(outcomes, 0);
    // Begin.
    assert(evs[0] == OpenEventView::Begin(exists));
    let (s1, a1) = open_step_spec(s, evs[0]);
    let e1 = evs.drop_first();
    // The session step, from where it stands after the worktree.
    let (s_sess, evs_sess, before) = if add {
        assert(e1[0] == OpenEventView::WorktreeAdded(Ok(())));
        let (s2, a2) = open_step_spec(s1, e1[0]);
        (s2, e1.drop_first(), seq![a1, a2])
    } else {
        (s1, e1, seq![a1])
    };
    assert(s_sess.next == OpenNext::Session);
    assert(evs_sess =~= seq![OpenEventView::SessionReady(Ok(()))] + cfg);
    assert(before =~= roles.subrange(0, before.len() as int));
    if add {
        assert(open_run(s, evs) == seq![a1] + open_run(s1, e1));
        assert(open_run(s1, e1) == seq![before[1]] + open_run(s_sess, evs_sess));
        assert(open_run(s, evs) =~= before + open_run(s_sess, evs_sess));
    } else {
        assert(open_run(s, evs) =~= before + open_run(s_sess, evs_sess));
    }
    let (s3, a3) = open_step_spec(s_sess, evs_sess[0]);
    assert(evs_sess.drop_first() =~= cfg);
    assert(open_run(s_sess, evs_sess) == seq![a3] + open_run(s3, cfg));
    if n > 0 {
        assert(s3.next == OpenNext::Config(0));
        lemma_configs_in_order(s3, outcomes, 0);
        let tail = open_run(s3, cfg);
        let run = open_run(s, evs);
        assert(run =~= before + seq![a3] + tail);
        assert forall|k: int| 0 <= k < roles.len() implies run[k] == #[trigger] roles[k] by {
            if k >= before.len() + 1 {
                assert(run[k] == tail[k - before.len() - 1]);
            }
        }
    } else {
        assert(cfg =~= Seq::<OpenEventView>::empty());
        assert(open_run(s3, cfg) =~= Seq::<OpenActionView>::empty());
        let run = open_run(s, evs);
        assert(run =~= before + seq![a3]);
        assert(roles =~= before);
    }
}

/// `open` stops at the first failure: when a role fails, the next action
/// is that failure (a config that does not come up: `devcontainer up
/// failed for <config>`), the `open` is over, and no answer fits after it,
/// so no later role runs.
pub proof fn law_open_stops_at_failure(s: OpenStateView, e: OpenEventView)
    requires
        open_fits(s, e),
        e matches OpenEventView::WorktreeAdded(Err(_)) || e matches OpenEventView::SessionReady(Err(_))
            || e matches OpenEventView::ConfigUp(Err(_)),
    ensures
        open_step_spec(s, e).0.next == OpenNext::Over,
        forall|e2: OpenEventView| !open_fits(open_step_spec(s, e).0, e2),
        match e {
            OpenEventView::WorktreeAdded(Err(m)) => open_step_spec(s, e).1 == OpenActionView::Fail(m),
            OpenEventView::SessionReady(Err(m)) => open_step_spec(s, e).1 == OpenActionView::Fail(m),
            _ => s.next matches OpenNext::Config(i) && open_step_spec(s, e).1 == OpenActionView::Fail(
                "devcontainer up failed for "@ + s.configs[i as int],
            ),
        },
{
}

} // verus!
