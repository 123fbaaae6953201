//! The sequential revision-execution engine.
//!
//! A run walks a list of revision specifiers, expands them into a flat
//! ordered list of commit hashes, acquires one shared scratch workspace,
//! clones the repository into it, and then, for each commit in order:
//! detached checkout, working-tree clean, optional stash application, a
//! pending report, the user command, and a final report. The whole run's
//! exit code is the code of the last commit processed.
//!
//! The engine owns every decision of that flow but performs no outside work
//! itself. It is a state machine: the driver feeds it one [`Event`] (the
//! result of the previous collaborator call) and receives the next
//! [`Action`] to perform. Any collaborator failure is fatal: the engine
//! moves to a terminal failed state and asks for nothing further.

use vstd::prelude::*;

use crate::invocation::Invocation;
use crate::invocation::build_invocation;
use crate::invocation::is_invocation_for;
use crate::status::Status;
use crate::status::outcome_of;

verus! {

/// The immutable configuration of one run.
pub struct RunConfig {
    /// Caller-supplied workspace directory, if any. The engine itself never
    /// reads it: the driver resolves the workspace when asked to create it.
    pub dir: Option<String>,
    /// Whether the latest stash is re-applied before every commit.
    pub apply_stash: bool,
    /// Whether the first command token is run as shell source.
    pub shell_command: bool,
    /// Whether the command's own output is shown live.
    pub verbose: bool,
    /// The revision specifiers, in the order given.
    pub commits: Vec<String>,
    /// The user command and its arguments. Never empty.
    pub command: Vec<String>,
}

/// Where the engine stands in the run.
#[derive(Clone, Copy, Debug, PartialEq, Eq, Structural)]
pub enum Phase {
    /// Nothing has happened yet.
    Idle,
    /// Waiting for the repository to be located.
    LocatingRepo,
    /// Waiting for the stash reference to resolve.
    StashLookup,
    /// Waiting for the current specifier to expand.
    Expanding,
    /// Waiting for the workspace directory to be created.
    CreatingWorkspace,
    /// Waiting for the clone into the workspace.
    Cloning,
    /// Waiting for the current commit's hash to resolve.
    ResolvingCommit,
    /// Waiting for the detached checkout.
    CheckingOut,
    /// Waiting for the working-tree clean.
    Cleaning,
    /// Waiting for the stash application.
    Stashing,
    /// Waiting for the pending report line.
    ReportingPending,
    /// Waiting for the user command to exit.
    Running,
    /// Waiting for the pending line to be erased.
    Erasing,
    /// Waiting for the final report line.
    ReportingFinal,
    /// The run is over; the exit code has been handed out.
    Finished,
    /// A fatal error stopped the run.
    Failed,
}

/// The result of the collaborator call the engine asked for last.
/// A `None` or `false` payload means the call failed.
#[derive(Clone, Debug, PartialEq, Eq)]
pub enum Event {
    /// Begin the run.
    Start,
    /// The repository was located, or not.
    RepoFound(bool),
    /// The stash reference resolved to a commit hash, or failed.
    StashHash(Option<String>),
    /// One specifier expanded to an ordered list of commit hashes, or failed.
    SpecCommits(Option<Vec<String>>),
    /// The workspace directory was created, or creation failed.
    WorkspaceReady(bool),
    /// The repository was cloned into the workspace, or the clone failed.
    Cloned(bool),
    /// The current commit's hash resolved, or failed.
    CommitHash(Option<String>),
    /// A checkout, clean, stash application, report or erase finished, or
    /// failed.
    StepDone(bool),
    /// The user command exited with the given raw exit information;
    /// `None` means the process could not even be launched.
    Exited(Option<Option<i32>>),
}

/// The next piece of outside work the driver must perform.
#[derive(Clone, Debug, PartialEq, Eq)]
pub enum Action {
    /// Locate the source repository.
    LocateRepo,
    /// Resolve the stash reference to a commit hash.
    ResolveStash,
    /// Expand one revision specifier to an ordered list of commit hashes.
    ResolveSpec(String),
    /// Create the workspace directory (retention cleanup included).
    CreateWorkspace,
    /// Clone the repository's objects into the workspace.
    CloneRepo,
    /// Resolve the given commit to its hash.
    ResolveCommit(String),
    /// Detached checkout of the given commit into the workspace.
    Checkout(String),
    /// Remove untracked and ignored files from the workspace.
    Clean,
    /// Apply the given stash commit onto the workspace.
    ApplyStash(String),
    /// Print the pending report line for the given commit.
    ReportPending(String),
    /// Run the user command, built as the given invocation, inside the
    /// workspace.
    RunCommand(Invocation),
    /// Move the cursor up one line and clear it.
    EraseLine,
    /// Print the final report line for the given commit and outcome.
    ReportFinal(String, Status),
    /// The run is over; exit with the given code.
    Finish(i32),
    /// A fatal error: stop, report it, and exit with the sentinel code.
    Fail,
}

/// The engine's whole state.
pub struct Engine {
    /// The run's configuration, fixed at construction.
    pub config: RunConfig,
    /// Where the engine stands.
    pub phase: Phase,
    /// The resolved stash commit, once looked up.
    pub stash: Option<String>,
    /// How many specifiers have been expanded.
    pub next_spec: usize,
    /// The flat ordered list of commits, grown one specifier at a time.
    pub commits: Vec<String>,
    /// How many commits have been dispatched.
    pub pos: usize,
    /// The hash of the commit being processed.
    pub current: String,
    /// The classified outcome of the current commit's run.
    pub outcome: Status,
    /// The raw exit code of the last completed command (0 before any).
    pub last_code: i32,
}

impl Engine {
    /// The engine's invariant: the configured command is never empty, and
    /// while a specifier is expanding there is indeed one left to expand.
    pub open spec fn inv(self) -> bool {
        &&& self.config.command@.len() >= 1
        &&& (self.phase == Phase::Expanding ==> self.next_spec < self.config.commits@.len())
    }
}

/// A fresh engine: idle, nothing resolved, exit code 0.
pub open spec fn is_initial(e: Engine) -> bool {
    &&& e.phase == Phase::Idle
    &&& e.stash is None
    &&& e.next_spec == 0
    &&& e.commits@.len() == 0
    &&& e.pos == 0
    &&& e.outcome == Status::Pending
    &&& e.last_code == 0
}

/// All fields but the phase are unchanged.
pub open spec fn frame(pre: Engine, post: Engine) -> bool {
    &&& post.config == pre.config
    &&& post.stash == pre.stash
    &&& post.next_spec == pre.next_spec
    &&& post.commits == pre.commits
    &&& post.pos == pre.pos
    &&& post.current == pre.current
    &&& post.outcome == pre.outcome
    &&& post.last_code == pre.last_code
}

/// A fatal transition: every field is kept, the phase becomes `Failed`, and
/// the driver is told to stop.
pub open spec fn fails(pre: Engine, post: Engine, act: Action) -> bool {
    &&& frame(pre, post)
    &&& post.phase == Phase::Failed
    &&& act == Action::Fail
}

/// After expansion bookkeeping, ask for the next specifier's expansion, or
/// move on to the workspace once every specifier is done.
pub open spec fn expand_dispatch(post: Engine, act: Action) -> bool {
    if post.next_spec < post.config.commits@.len() {
        &&& post.phase == Phase::Expanding
        &&& act matches Action::ResolveSpec(s) && s@ == post.config.commits@[
            post.next_spec as int
        ]@
    } else {
        &&& post.phase == Phase::CreatingWorkspace
        &&& act == Action::CreateWorkspace
    }
}

/// Dispatch the next commit, or finish the run with the last exit code once
/// every commit has been processed.
pub open spec fn commit_dispatch(pre: Engine, post: Engine, act: Action) -> bool {
    &&& post.config == pre.config
    &&& post.stash == pre.stash
    &&& post.next_spec == pre.next_spec
    &&& post.commits == pre.commits
    &&& post.current == pre.current
    &&& post.outcome == pre.outcome
    &&& post.last_code == pre.last_code
    &&& if pre.pos < pre.commits@.len() {
        &&& post.pos == pre.pos + 1
        &&& post.phase == Phase::ResolvingCommit
        &&& act matches Action::ResolveCommit(s) && s@ == pre.commits@[pre.pos as int]@
    } else {
        &&& post.pos == pre.pos
        &&& post.phase == Phase::Finished
        &&& act == Action::Finish(pre.last_code)
    }
}

/// The raw exit code the run remembers for an exit: the process's code, or
/// 255 when it terminated without one.
pub open spec fn remembered_code(eo: Option<i32>) -> i32 {
    match eo {
        Option::Some(c) => c,
        Option::None => 255,
    }
}

/// The engine's complete transition relation: from state `pre`, event `ev`
/// leads to state `post` with action `act`.
pub open spec fn next(pre: Engine, ev: Event, post: Engine, act: Action) -> bool {
    match (pre.phase, ev) {
        (Phase::Idle, Event::Start) => {
            &&& frame(pre, post)
            &&& post.phase == Phase::LocatingRepo
            &&& act == Action::LocateRepo
        },
        (Phase::LocatingRepo, Event::RepoFound(ok)) => {
            if !ok {
                fails(pre, post, act)
            } else if pre.config.apply_stash {
                &&& frame(pre, post)
                &&& post.phase == Phase::StashLookup
                &&& act == Action::ResolveStash
            } else {
                &&& frame(pre, post)
                &&& expand_dispatch(post, act)
            }
        },
        (Phase::StashLookup, Event::StashHash(h)) => {
            match h {
                Option::Some(hs) => {
                    &&& post.stash matches Option::Some(ps) && ps@ == hs@
                    &&& post.config == pre.config
                    &&& post.next_spec == pre.next_spec
                    &&& post.commits == pre.commits
                    &&& post.pos == pre.pos
                    &&& post.current == pre.current
                    &&& post.outcome == pre.outcome
                    &&& post.last_code == pre.last_code
                    &&& expand_dispatch(post, act)
                },
                Option::None => fails(pre, post, act),
            }
        },
        (Phase::Expanding, Event::SpecCommits(r)) => {
            match r {
                Option::Some(l) => {
                    &&& post.commits@ == pre.commits@ + l@
                    &&& post.next_spec == pre.next_spec + 1
                    &&& post.config == pre.config
                    &&& post.stash == pre.stash
                    &&& post.pos == pre.pos
                    &&& post.current == pre.current
                    &&& post.outcome == pre.outcome
                    &&& post.last_code == pre.last_code
                    &&& expand_dispatch(post, act)
                },
                Option::None => fails(pre, post, act),
            }
        },
        (Phase::CreatingWorkspace, Event::WorkspaceReady(ok)) => {
            if ok {
                &&& frame(pre, post)
                &&& post.phase == Phase::Cloning
                &&& act == Action::CloneRepo
            } else {
                fails(pre, post, act)
            }
        },
        (Phase::Cloning, Event::Cloned(ok)) => {
            if ok {
                commit_dispatch(pre, post, act)
            } else {
                fails(pre, post, act)
            }
        },
        (Phase::ResolvingCommit, Event::CommitHash(h)) => {
            match h {
                Option::Some(hs) => {
                    &&& post.current@ == hs@
                    &&& post.config == pre.config
                    &&& post.stash == pre.stash
                    &&& post.next_spec == pre.next_spec
                    &&& post.commits == pre.commits
                    &&& post.pos == pre.pos
                    &&& post.outcome == pre.outcome
                    &&& post.last_code == pre.last_code
                    &&& post.phase == Phase::CheckingOut
                    &&& act matches Action::Checkout(c) && c@ == hs@
                },
                Option::None => fails(pre, post, act),
            }
        },
        (Phase::CheckingOut, Event::StepDone(ok)) => {
            if ok {
                &&& frame(pre, post)
                &&& post.phase == Phase::Cleaning
                &&& act == Action::Clean
            } else {
                fails(pre, post, act)
            }
        },
        (Phase::Cleaning, Event::StepDone(ok)) => {
            if ok {
                &&& frame(pre, post)
                &&& match pre.stash {
                    Option::Some(s) => {
                        &&& post.phase == Phase::Stashing
                        &&& act matches Action::ApplyStash(a) && a@ == s@
                    },
                    Option::None => {
                        &&& post.phase == Phase::ReportingPending
                        &&& act matches Action::ReportPending(c) && c@ == pre.current@
                    },
                }
            } else {
                fails(pre, post, act)
            }
        },
        (Phase::Stashing, Event::StepDone(ok)) => {
            if ok {
                &&& frame(pre, post)
                &&& post.phase == Phase::ReportingPending
                &&& act matches Action::ReportPending(c) && c@ == pre.current@
            } else {
                fails(pre, post, act)
            }
        },
        (Phase::ReportingPending, Event::StepDone(ok)) => {
            if ok {
                &&& frame(pre, post)
                &&& post.phase == Phase::Running
                &&& act matches Action::RunCommand(inv) && is_invocation_for(
                    pre.config.shell_command,
                    pre.config.command@,
                    inv,
                )
            } else {
                fails(pre, post, act)
            }
        },
        (Phase::Running, Event::Exited(r)) => {
            match r {
                Option::Some(eo) => {
                    &&& post.outcome == outcome_of(eo)
                    &&& post.last_code == remembered_code(eo)
                    &&& post.config == pre.config
                    &&& post.stash == pre.stash
                    &&& post.next_spec == pre.next_spec
                    &&& post.commits == pre.commits
                    &&& post.pos == pre.pos
                    &&& post.current == pre.current
                    &&& if pre.config.verbose {
                        &&& post.phase == Phase::ReportingFinal
                        &&& act matches Action::ReportFinal(c, st) && c@ == pre.current@ && st
                            == outcome_of(eo)
                    } else {
                        &&& post.phase == Phase::Erasing
                        &&& act == Action::EraseLine
                    }
                },
                Option::None => fails(pre, post, act),
            }
        },
        (Phase::Erasing, Event::StepDone(ok)) => {
            if ok {
                &&& frame(pre, post)
                &&& post.phase == Phase::ReportingFinal
                &&& act matches Action::ReportFinal(c, st) && c@ == pre.current@ && st
                    == pre.outcome
            } else {
                fails(pre, post, act)
            }
        },
        (Phase::ReportingFinal, Event::StepDone(ok)) => {
            if ok {
                commit_dispatch(pre, post, act)
            } else {
                fails(pre, post, act)
            }
        },
        _ => false,
    }
}

/// Whether the engine, in this state, can take this event: the event must
/// answer the action the engine asked for last.
pub open spec fn accepts(pre: Engine, ev: Event) -> bool {
    match (pre.phase, ev) {
        (Phase::Idle, Event::Start) => true,
        (Phase::LocatingRepo, Event::RepoFound(_)) => true,
        (Phase::StashLookup, Event::StashHash(_)) => true,
        (Phase::Expanding, Event::SpecCommits(_)) => true,
        (Phase::CreatingWorkspace, Event::WorkspaceReady(_)) => true,
        (Phase::Cloning, Event::Cloned(_)) => true,
        (Phase::ResolvingCommit, Event::CommitHash(_)) => true,
        (Phase::CheckingOut, Event::StepDone(_)) => true,
        (Phase::Cleaning, Event::StepDone(_)) => true,
        (Phase::Stashing, Event::StepDone(_)) => true,
        (Phase::ReportingPending, Event::StepDone(_)) => true,
        (Phase::Running, Event::Exited(_)) => true,
        (Phase::Erasing, Event::StepDone(_)) => true,
        (Phase::ReportingFinal, Event::StepDone(_)) => true,
        _ => false,
    }
}

impl Engine {
    /// A fresh engine for one run.
    pub fn new(config: RunConfig) -> (r: Engine)
        requires
            config.command@.len() >= 1,
        ensures
            r.inv(),
            is_initial(r),
            r.config == config,
    {
        Engine {
            config,
            phase: Phase::Idle,
            stash: Option::None,
            next_spec: 0,
            commits: Vec::new(),
            pos: 0,
            current: String::new(),
            outcome: Status::Pending,
            last_code: 0,
        }
    }

    /// Move to the terminal failed state.
    fn fail(&mut self) -> (act: Action)
        ensures
            fails(*old(self), *final(self), act),
    {
        self.phase = Phase::Failed;
        Action::Fail
    }

    /// Ask for the next specifier's expansion, or move on to the workspace.
    fn dispatch_expansion(&mut self) -> (act: Action)
        ensures
            final(self).config == old(self).config,
            final(self).stash == old(self).stash,
            final(self).next_spec == old(self).next_spec,
            final(self).commits == old(self).commits,
            final(self).pos == old(self).pos,
            final(self).current == old(self).current,
            final(self).outcome == old(self).outcome,
            final(self).last_code == old(self).last_code,
            expand_dispatch(*final(self), act),
    {
        if self.next_spec < self.config.commits.len() {
            let s = self.config.commits[self.next_spec].as_str().to_owned();
            self.phase = Phase::Expanding;
            Action::ResolveSpec(s)
        } else {
            self.phase = Phase::CreatingWorkspace;
            Action::CreateWorkspace
        }
    }

    /// Dispatch the next commit, or finish the run.
    fn dispatch_commit(&mut self) -> (act: Action)
        ensures
            commit_dispatch(*old(self), *final(self), act),
    {
        if self.pos < self.commits.len() {
            let c = self.commits[self.pos].as_str().to_owned();
            self.pos = self.pos + 1;
            self.phase = Phase::ResolvingCommit;
            Action::ResolveCommit(c)
        } else {
            self.phase = Phase::Finished;
            Action::Finish(self.last_code)
        }
    }

    /// Take one step: consume the result of the last collaborator call and
    /// hand out the next piece of work.
    pub fn step(&mut self, ev: Event) -> (act: Action)
        requires
            old(self).inv(),
            accepts(*old(self), ev),
        ensures
            final(self).inv(),
            next(*old(self), ev, *final(self), act),
    {
        match (self.phase, ev) {
            (Phase::Idle, Event::Start) => {
                self.phase = Phase::LocatingRepo;
                Action::LocateRepo
            },
            (Phase::LocatingRepo, Event::RepoFound(ok)) => {
                if !ok {
                    self.fail()
                } else if self.config.apply_stash {
                    self.phase = Phase::StashLookup;
                    Action::ResolveStash
                } else {
                    self.dispatch_expansion()
                }
            },
            (Phase::StashLookup, Event::StashHash(Option::Some(h))) => {
                self.stash = Option::Some(h);
                self.dispatch_expansion()
            },
            (Phase::StashLookup, Event::StashHash(Option::None)) => self.fail(),
            (Phase::Expanding, Event::SpecCommits(Option::Some(l))) => {
                let mut l = l;
                self.commits.append(&mut l);
                let total = self.config.commits.len();
                assert(self.next_spec < total);
                self.next_spec = self.next_spec + 1;
                self.dispatch_expansion()
            },
            (Phase::Expanding, Event::SpecCommits(Option::None)) => self.fail(),
            (Phase::CreatingWorkspace, Event::WorkspaceReady(ok)) => {
                if ok {
                    self.phase = Phase::Cloning;
                    Action::CloneRepo
                } else {
                    self.fail()
                }
            },
            (Phase::Cloning, Event::Cloned(ok)) => {
                if ok {
                    self.dispatch_commit()
                } else {
                    self.fail()
                }
            },
            (Phase::ResolvingCommit, Event::CommitHash(Option::Some(h))) => {
                let c = h.as_str().to_owned();
                self.current = h;
                self.phase = Phase::CheckingOut;
                Action::Checkout(c)
            },
            (Phase::ResolvingCommit, Event::CommitHash(Option::None)) => self.fail(),
            (Phase::CheckingOut, Event::StepDone(ok)) => {
                if ok {
                    self.phase = Phase::Cleaning;
                    Action::Clean
                } else {
                    self.fail()
                }
            },
            (Phase::Cleaning, Event::StepDone(ok)) => {
                if ok {
                    match &self.stash {
                        Option::Some(s) => {
                            let a = s.as_str().to_owned();
                            self.phase = Phase::Stashing;
                            Action::ApplyStash(a)
                        },
                        Option::None => {
                            let c = self.current.as_str().to_owned();
                            self.phase = Phase::ReportingPending;
                            Action::ReportPending(c)
                        },
                    }
                } else {
                    self.fail()
                }
            },
            (Phase::Stashing, Event::StepDone(ok)) => {
                if ok {
                    let c = self.current.as_str().to_owned();
                    self.phase = Phase::ReportingPending;
                    Action::ReportPending(c)
                } else {
                    self.fail()
                }
            },
            (Phase::ReportingPending, Event::StepDone(ok)) => {
                if ok {
                    let inv = build_invocation(self.config.shell_command, &self.config.command);
                    self.phase = Phase::Running;
                    Action::RunCommand(inv)
                } else {
                    self.fail()
                }
            },
            (Phase::Running, Event::Exited(Option::Some(eo))) => {
                let st = Status::classify(eo);
                self.outcome = st;
                self.last_code = match eo {
                    Option::Some(c) => c,
                    Option::None => 255,
                };
                if self.config.verbose {
                    let c = self.current.as_str().to_owned();
                    self.phase = Phase::ReportingFinal;
                    Action::ReportFinal(c, st)
                } else {
                    self.phase = Phase::Erasing;
                    Action::EraseLine
                }
            },
            (Phase::Running, Event::Exited(Option::None)) => self.fail(),
            (Phase::Erasing, Event::StepDone(ok)) => {
                if ok {
                    let c = self.current.as_str().to_owned();
                    self.phase = Phase::ReportingFinal;
                    Action::ReportFinal(c, self.outcome)
                } else {
                    self.fail()
                }
            },
            (Phase::ReportingFinal, Event::StepDone(ok)) => {
                if ok {
                    self.dispatch_commit()
                } else {
                    self.fail()
                }
            },
            _ => {
                proof {
                    assert(false);
                }
                Action::Fail
            },
        }
    }
}

/// A valid trace of one run: `states` holds every state the engine went
/// through, `evs` the events fed to it, `acts` the actions it handed out,
/// with each step a transition of the engine's relation.
pub open spec fn valid_trace(states: Seq<Engine>, evs: Seq<Event>, acts: Seq<Action>) -> bool {
    &&& states.len() == evs.len() + 1
    &&& acts.len() == evs.len()
    &&& forall|i: int|
        0 <= i < evs.len() ==> #[trigger] next(states[i], evs[i], states[i + 1], acts[i])
}

/// Law: the working tree is cleaned only immediately after its commit's
/// detached checkout succeeded — a clean never runs before a checkout.
pub proof fn lemma_clean_follows_checkout(
    states: Seq<Engine>,
    evs: Seq<Event>,
    acts: Seq<Action>,
    i: int,
)
    requires
        valid_trace(states, evs, acts),
        states[0].phase == Phase::Idle,
        0 <= i < acts.len(),
        acts[i] is Clean,
    ensures
        0 < i,
        acts[i - 1] matches Action::Checkout(h) && h@ == states[i].current@,
{
    assert(next(states[i], evs[i], states[i + 1], acts[i]));
    assert(states[i].phase == Phase::CheckingOut);
    assert(states[0].phase != Phase::CheckingOut);
    let j = i - 1;
    assert(next(states[j], evs[j], states[j + 1], acts[j]));
}

/// Law: a stash is applied only immediately after the working tree was
/// cleaned — stash application never runs before a clean.
pub proof fn lemma_stash_follows_clean(
    states: Seq<Engine>,
    evs: Seq<Event>,
    acts: Seq<Action>,
    i: int,
)
    requires
        valid_trace(states, evs, acts),
        states[0].phase == Phase::Idle,
        0 <= i < acts.len(),
        acts[i] is ApplyStash,
    ensures
        0 < i,
        acts[i - 1] is Clean,
{
    assert(next(states[i], evs[i], states[i + 1], acts[i]));
    assert(states[i].phase == Phase::Cleaning);
    assert(states[0].phase != Phase::Cleaning);
    let j = i - 1;
    assert(next(states[j], evs[j], states[j + 1], acts[j]));
}

/// Law: a fatal error halts the run at once. After the engine hands out
/// `Fail`, a valid trace holds no further step of any kind: no preparation
/// of a later commit, no report, nothing.
pub proof fn lemma_fail_is_last(states: Seq<Engine>, evs: Seq<Event>, acts: Seq<Action>, i: int)
    requires
        valid_trace(states, evs, acts),
        0 <= i < acts.len(),
        acts[i] is Fail,
    ensures
        i == acts.len() - 1,
{
    assert(next(states[i], evs[i], states[i + 1], acts[i]));
    assert(states[i + 1].phase == Phase::Failed);
    if i + 1 < acts.len() {
        let j = i + 1;
        assert(next(states[j], evs[j], states[j + 1], acts[j]));
        assert(false);
    }
}

/// Law: handing out the run's exit code ends the run — nothing follows a
/// `Finish` action in a valid trace.
pub proof fn lemma_finish_is_last(states: Seq<Engine>, evs: Seq<Event>, acts: Seq<Action>, i: int)
    requires
        valid_trace(states, evs, acts),
        0 <= i < acts.len(),
        acts[i] is Finish,
    ensures
        i == acts.len() - 1,
{
    assert(next(states[i], evs[i], states[i + 1], acts[i]));
    assert(states[i + 1].phase == Phase::Finished);
    if i + 1 < acts.len() {
        let j = i + 1;
        assert(next(states[j], evs[j], states[j + 1], acts[j]));
        assert(false);
    }
}

/// The concatenation, in order, of every successful expansion the events
/// carry: the flat commit list the run is to process.
pub open spec fn expanded_commits(evs: Seq<Event>) -> Seq<String>
    decreases evs.len(),
{
    if evs.len() == 0 {
        Seq::empty()
    } else {
        expanded_commits(evs.drop_last()) + match evs.last() {
            Event::SpecCommits(r) => match r {
                Option::Some(l) => l@,
                Option::None => Seq::empty(),
            },
            _ => Seq::empty(),
        }
    }
}

/// How many commits the actions have dispatched so far.
pub open spec fn dispatch_count(acts: Seq<Action>) -> nat
    decreases acts.len(),
{
    if acts.len() == 0 {
        0
    } else {
        dispatch_count(acts.drop_last()) + if acts.last() is ResolveCommit {
            1nat
        } else {
            0nat
        }
    }
}

/// The exit code the run remembers after these events: the code of the last
/// exit among them (255 standing for an absent code), or 0 before any.
pub open spec fn last_exit_code(evs: Seq<Event>) -> i32
    decreases evs.len(),
{
    if evs.len() == 0 {
        0
    } else {
        match evs.last() {
            Event::Exited(r) => match r {
                Option::Some(eo) => remembered_code(eo),
                Option::None => last_exit_code(evs.drop_last()),
            },
            _ => last_exit_code(evs.drop_last()),
        }
    }
}

/// The bookkeeping a valid trace maintains: the engine's commit list is
/// exactly the expansions seen so far, its dispatch position counts the
/// commits dispatched so far, and its remembered code is the last exit's.
pub proof fn lemma_run_bookkeeping(states: Seq<Engine>, evs: Seq<Event>, acts: Seq<Action>, i: int)
    requires
        valid_trace(states, evs, acts),
        is_initial(states[0]),
        0 <= i <= evs.len(),
    ensures
        states[i].commits@ == expanded_commits(evs.take(i)),
        states[i].pos == dispatch_count(acts.take(i)),
        states[i].pos <= states[i].commits@.len(),
        states[i].last_code == last_exit_code(evs.take(i)),
    decreases i,
{
    if i == 0 {
        assert(evs.take(0) =~= Seq::<Event>::empty());
        assert(acts.take(0) =~= Seq::<Action>::empty());
        assert(states[0].commits@ =~= expanded_commits(evs.take(0)));
    } else {
        lemma_run_bookkeeping(states, evs, acts, i - 1);
        let j = i - 1;
        assert(next(states[j], evs[j], states[j + 1], acts[j]));
        assert(evs.take(i).drop_last() =~= evs.take(i - 1));
        assert(acts.take(i).drop_last() =~= acts.take(i - 1));
        assert(evs.take(i).last() == evs[i - 1]);
        assert(acts.take(i).last() == acts[i - 1]);
    }
}

/// Law (sequencing): the commits are dispatched exactly in the order the
/// specifiers expanded to. When the engine dispatches a commit, it is the
/// next undispatched entry of the flat expanded list.
pub proof fn lemma_sequencing(states: Seq<Engine>, evs: Seq<Event>, acts: Seq<Action>, i: int)
    requires
        valid_trace(states, evs, acts),
        is_initial(states[0]),
        0 <= i < acts.len(),
        acts[i] is ResolveCommit,
    ensures
        dispatch_count(acts.take(i)) < expanded_commits(evs.take(i)).len(),
        acts[i] matches Action::ResolveCommit(s) && s@ == expanded_commits(evs.take(i))[
            dispatch_count(acts.take(i)) as int
        ]@,
{
    lemma_run_bookkeeping(states, evs, acts, i);
    assert(next(states[i], evs[i], states[i + 1], acts[i]));
}

/// Law (final exit code): the run finishes only after every expanded commit
/// has been dispatched, and the code it hands out is the remembered raw code
/// of the last commit processed (0 when no commit ran at all).
pub proof fn lemma_final_code(states: Seq<Engine>, evs: Seq<Event>, acts: Seq<Action>, i: int)
    requires
        valid_trace(states, evs, acts),
        is_initial(states[0]),
        0 <= i < acts.len(),
        acts[i] is Finish,
    ensures
        acts[i] == Action::Finish(last_exit_code(evs.take(i))),
        dispatch_count(acts.take(i)) == expanded_commits(evs.take(i)).len(),
{
    lemma_run_bookkeeping(states, evs, acts, i);
    assert(next(states[i], evs[i], states[i + 1], acts[i]));
}

} // verus!
