//! The bisection driver: the control loop that owns one search run.
//!
//! The driver exists in two forms with one engine underneath.
//! [`run_bisection`] is the direct form: given the verdict of every
//! revision it performs the whole search, and its contract carries the
//! convergence guarantees.  [`Driver`] is the event-driven form for real
//! runs: each call to [`Driver::step`] consumes one event (session
//! started, oracle exited, ...) and answers with the one action the
//! embedding program must perform next (start the session, run the
//! oracle against a revision, end the session).  The embedding program
//! does the process spawning and version-control work; every decision is
//! taken here.

use vstd::prelude::*;

use crate::engine::Bisector;
use crate::engine::SessionResult;
use crate::engine::iteration_budget;
use crate::engine::lemma_log2_ceil_bound;
use crate::engine::log2_ceil;
use crate::engine::pow2;
use crate::oracle::Verdict;
use crate::oracle::spec_verdict_of_exit;
use crate::oracle::verdict_of_exit;
use crate::session::Session;

verus! {

/// How a completed search ended.
#[derive(Clone, Copy, Debug, PartialEq, Eq, Structural)]
pub enum SearchOutcome {
    /// The first bad revision was isolated; the payload is its rank.
    Found(usize),
    /// The iteration budget was consumed without an oracle-confirmed
    /// first bad revision.
    Exhausted,
}

/// The result of a completed search: its outcome and how many oracle
/// invocations it spent.
#[derive(Clone, Copy, Debug, PartialEq, Eq, Structural)]
pub struct SearchReport {
    /// How the search ended.
    pub outcome: SearchOutcome,
    /// How many verdicts were recorded.
    pub iterations: usize,
}

/// The verdicts are consistent with a single good-to-bad transition at
/// rank `t`: every revision before `t` is good, every one from `t` on is
/// bad.
pub open spec fn monotone_from(t: int, v: Seq<Verdict>) -> bool {
    forall|i: int| 0 <= i < v.len() ==> ((v[i] == Verdict::Good) <==> i < t)
}

/// Run a whole bisection against a table holding the verdict of every
/// revision, oldest first.  This is the search strategy itself, free of
/// any external process: the driver's loop against an oracle that
/// answers from the table.
///
/// The contract carries the driver's guarantees:
/// - at most `ceil(log2(n))` verdicts are spent, whatever the table
///   holds, so a misbehaving oracle cannot spin the loop forever;
/// - a found rank was observed bad, just after a rank observed good (or
///   is the oldest revision);
/// - if the table has a single good-to-bad transition at a rank below
///   the newest revision, exactly that rank is found.
pub fn run_bisection(verdicts: &Vec<Verdict>) -> (r: SearchReport)
    requires
        1 <= verdicts.len(),
    ensures
        r.iterations <= log2_ceil(verdicts.len() as nat),
        r.outcome matches SearchOutcome::Found(f) ==> {
            &&& f < verdicts.len()
            &&& verdicts[f as int] == Verdict::Bad
            &&& (f == 0 || verdicts[f as int - 1] == Verdict::Good)
        },
        forall|t: int|
            0 <= t <= verdicts.len() - 2 && monotone_from(t, verdicts@) ==> r.outcome
                == SearchOutcome::Found(t as usize),
{
    let n: usize = verdicts.len();
    let budget: usize = iteration_budget(n);
    proof {
        lemma_log2_ceil_bound(n as nat);
    }
    let mut b = Bisector::new(n);
    let mut count: usize = 0;
    while b.remains_open() && count < budget
        invariant
            b.wf(),
            b.n == n,
            n == verdicts.len(),
            1 <= n,
            count <= budget,
            budget == log2_ceil(n as nat),
            b.gap() <= pow2((budget - count) as nat),
            b.gap() == 1 ==> !b.confirmed,
            b.lo_plus > 0 ==> verdicts[b.lo_plus - 1] == Verdict::Good,
            b.confirmed ==> verdicts[b.hi as int] == Verdict::Bad,
            forall|t: int|
                0 <= t < n && monotone_from(t, verdicts@) ==> b.lo_plus <= t <= b.hi,
        decreases budget - count,
    {
        proof {
            b.lemma_candidate_bounds();
        }
        let c: usize = b.candidate();
        let v: Verdict = verdicts[c];
        count = count + 1;
        let ghost pre = b;
        let res = b.record_verdict(v);
        proof {
            assert(pow2((budget - count + 1) as nat) == 2 * pow2((budget - count) as nat));
            assert forall|t: int|
                0 <= t < n && monotone_from(t, verdicts@) implies b.lo_plus <= t <= b.hi by {
                assert(pre.lo_plus <= t <= pre.hi);
                assert((verdicts@[c as int] == Verdict::Good) <==> c < t);
            };
        }
        match res {
            SessionResult::Converged(f) => {
                proof {
                    assert(b.gap() == 1 && b.confirmed && f == b.hi);
                }
                return SearchReport { outcome: SearchOutcome::Found(f), iterations: count };
            }
            SessionResult::Continue(_) => {}
        }
    }
    proof {
        assert(b.gap() == 1);
        assert(b.lo_plus == b.hi);
    }
    SearchReport { outcome: SearchOutcome::Exhausted, iterations: count }
}

/// Why a run failed.
#[derive(Clone, Copy, Debug, PartialEq, Eq, Structural)]
pub enum FailureKind {
    /// A prior session was active and the one automatic reset did not
    /// clear it.
    SessionConflict,
    /// The test command could not be spawned.
    OracleLaunch,
    /// The embedding program answered with an event the current phase
    /// cannot accept.
    Backend,
}

/// Where a run stands.  The last three phases are terminal.
#[derive(Clone, Copy, Debug, PartialEq, Eq, Structural)]
pub enum Phase {
    /// Waiting for the backend session to start.
    Starting,
    /// A conflicting session is being reset before one more start
    /// attempt.
    Healing,
    /// Waiting for the oracle's verdict on the dispatched candidate.
    Testing,
    /// The first bad revision was isolated; the payload is its rank.
    Found(usize),
    /// The iteration budget was consumed without convergence.
    Exhausted,
    /// The run failed; the payload says why.
    Failed(FailureKind),
}

/// What the embedding program reports back to the driver.
#[derive(Clone, Copy, Debug, PartialEq, Eq, Structural)]
pub enum Event {
    /// The backend session started.
    SessionStarted,
    /// The backend refused to start a session because one was active.
    SessionConflict,
    /// The backend session state was reset.
    SessionReset,
    /// The test command ran against the dispatched candidate and exited
    /// with this status.
    OracleExit(i32),
    /// The test command could not be spawned.
    OracleSpawnFailed,
}

/// What the embedding program must perform next.
#[derive(Clone, Copy, Debug, PartialEq, Eq, Structural)]
pub enum Action {
    /// Start a backend session, saving the pre-bisection reference
    /// point.
    StartSession,
    /// Reset the backend session state.
    ResetSession,
    /// Materialize the revision of this rank and run the test command
    /// against it.
    RunOracle(usize),
    /// End the session, restoring the pre-bisection reference point.
    EndSession,
    /// Nothing: the run is over.
    Halt,
}

/// Whether a phase is terminal: once reached, the driver never moves
/// again.
pub open spec fn phase_terminal(p: Phase) -> bool {
    match p {
        Phase::Found(_) => true,
        Phase::Exhausted => true,
        Phase::Failed(_) => true,
        _ => false,
    }
}

/// One bisection run, driven by events.  After [`Driver::new`] the
/// embedding program performs [`Action::StartSession`], then feeds each
/// outcome to [`Driver::step`] and performs the action it returns, until
/// the phase is terminal.
pub struct Driver {
    /// Where the run stands.
    pub phase: Phase,
    /// The bracket being narrowed.
    pub engine: Bisector,
    /// The driver's record of the backend session.
    pub session: Session,
    /// How many oracle runs were dispatched.
    pub iterations: usize,
    /// The hard ceiling on oracle runs: `ceil(log2(n))`.
    pub budget: usize,
    /// Whether the one automatic session reset was already spent.
    pub healed: bool,
}

impl Driver {
    /// The driver's invariant, preserved by every step: the bracket is
    /// well formed, the iteration count stays within the budget, the
    /// doubt gap is small enough to converge within the remaining
    /// budget, and the session is active exactly while the search is.
    pub open spec fn wf(self) -> bool {
        &&& self.engine.wf()
        &&& self.budget == log2_ceil(self.engine.n as nat)
        &&& match self.phase {
            Phase::Starting | Phase::Healing => {
                &&& !self.session.active
                &&& self.iterations == 0
                &&& self.engine.lo_plus == 0
                &&& !self.engine.confirmed
            },
            Phase::Testing => {
                &&& self.session.active
                &&& 1 <= self.iterations <= self.budget
                &&& self.engine.has_candidate()
                &&& self.engine.gap() <= pow2((self.budget - self.iterations + 1) as nat)
            },
            Phase::Found(f) => {
                &&& !self.session.active
                &&& f == self.engine.hi
                &&& self.iterations <= self.budget
            },
            Phase::Exhausted | Phase::Failed(_) => {
                &&& !self.session.active
                &&& self.iterations <= self.budget
            },
        }
    }

    /// The full transition relation of the driver, one step: from a
    /// state and an event to the next state and the action owed.  Every
    /// transition into a terminal phase ends the session and answers
    /// `EndSession`; a terminal state absorbs every further event.
    pub open spec fn spec_step(self, e: Event) -> (Driver, Action) {
        if phase_terminal(self.phase) {
            (self, Action::Halt)
        } else {
            match (self.phase, e) {
                (Phase::Starting, Event::SessionStarted) => {
                    let started = Driver { session: Session { active: true }, ..self };
                    if started.engine.has_candidate() {
                        (
                            Driver { phase: Phase::Testing, iterations: 1, ..started },
                            Action::RunOracle(started.engine.spec_candidate() as usize),
                        )
                    } else {
                        (
                            Driver {
                                phase: Phase::Exhausted,
                                session: Session { active: false },
                                ..started
                            },
                            Action::EndSession,
                        )
                    }
                },
                (Phase::Starting, Event::SessionConflict) => {
                    if !self.healed {
                        (
                            Driver { phase: Phase::Healing, healed: true, ..self },
                            Action::ResetSession,
                        )
                    } else {
                        (
                            Driver {
                                phase: Phase::Failed(FailureKind::SessionConflict),
                                session: Session { active: false },
                                ..self
                            },
                            Action::EndSession,
                        )
                    }
                },
                (Phase::Healing, Event::SessionReset) => (
                    Driver { phase: Phase::Starting, ..self },
                    Action::StartSession,
                ),
                (Phase::Testing, Event::OracleExit(code)) => {
                    let eng = self.engine.spec_apply(spec_verdict_of_exit(code));
                    match eng.spec_result() {
                        SessionResult::Converged(f) => (
                            Driver {
                                phase: Phase::Found(f),
                                engine: eng,
                                session: Session { active: false },
                                ..self
                            },
                            Action::EndSession,
                        ),
                        SessionResult::Continue(c) => {
                            if eng.has_candidate() && self.iterations < self.budget {
                                (
                                    Driver {
                                        engine: eng,
                                        iterations: (self.iterations + 1) as usize,
                                        ..self
                                    },
                                    Action::RunOracle(c),
                                )
                            } else {
                                (
                                    Driver {
                                        phase: Phase::Exhausted,
                                        engine: eng,
                                        session: Session { active: false },
                                        ..self
                                    },
                                    Action::EndSession,
                                )
                            }
                        },
                    }
                },
                (Phase::Testing, Event::OracleSpawnFailed) => (
                    Driver {
                        phase: Phase::Failed(FailureKind::OracleLaunch),
                        session: Session { active: false },
                        ..self
                    },
                    Action::EndSession,
                ),
                _ => (
                    Driver {
                        phase: Phase::Failed(FailureKind::Backend),
                        session: Session { active: false },
                        ..self
                    },
                    Action::EndSession,
                ),
            }
        }
    }

    /// Open a run over `n` revisions: budget `ceil(log2(n))`, fresh
    /// bracket, no session yet.  The embedding program's first move is
    /// [`Action::StartSession`].
    pub fn new(n: usize) -> (d: Driver)
        requires
            1 <= n,
        ensures
            d.wf(),
            d.phase == Phase::Starting,
            d.engine.n == n,
            d.budget == log2_ceil(n as nat),
            !d.healed,
    {
        let budget: usize = iteration_budget(n);
        Driver {
            phase: Phase::Starting,
            engine: Bisector::new(n),
            session: Session::new(),
            iterations: 0,
            budget,
            healed: false,
        }
    }

    /// The move that opens the protocol.
    pub fn initial_action(&self) -> (a: Action)
        requires
            self.phase == Phase::Starting,
        ensures
            a == Action::StartSession,
    {
        Action::StartSession
    }

    /// Consume one event and answer with the next action owed.  The step
    /// follows [`Driver::spec_step`] exactly and preserves the
    /// invariant.
    pub fn step(&mut self, e: Event) -> (a: Action)
        requires
            old(self).wf(),
        ensures
            *final(self) == old(self).spec_step(e).0,
            a == old(self).spec_step(e).1,
            final(self).wf(),
    {
        match (self.phase, e) {
            (Phase::Starting, Event::SessionStarted) => {
                let _ = self.session.start();
                if self.engine.remains_open() {
                    proof {
                        lemma_log2_ceil_bound(self.engine.n as nat);
                    }
                    self.phase = Phase::Testing;
                    self.iterations = 1;
                    let c: usize = self.engine.candidate();
                    Action::RunOracle(c)
                } else {
                    self.phase = Phase::Exhausted;
                    self.session.end();
                    Action::EndSession
                }
            },
            (Phase::Starting, Event::SessionConflict) => {
                if !self.healed {
                    self.healed = true;
                    self.phase = Phase::Healing;
                    Action::ResetSession
                } else {
                    self.phase = Phase::Failed(FailureKind::SessionConflict);
                    self.session.end();
                    Action::EndSession
                }
            },
            (Phase::Healing, Event::SessionReset) => {
                self.phase = Phase::Starting;
                Action::StartSession
            },
            (Phase::Testing, Event::OracleExit(code)) => {
                let v: Verdict = verdict_of_exit(code);
                proof {
                    assert(pow2((self.budget - self.iterations + 1) as nat) == 2 * pow2(
                        (self.budget - self.iterations) as nat,
                    ));
                }
                let res = self.engine.record_verdict(v);
                match res {
                    SessionResult::Converged(f) => {
                        self.phase = Phase::Found(f);
                        self.session.end();
                        Action::EndSession
                    },
                    SessionResult::Continue(c) => {
                        if self.engine.remains_open() && self.iterations < self.budget {
                            self.iterations = self.iterations + 1;
                            Action::RunOracle(c)
                        } else {
                            self.phase = Phase::Exhausted;
                            self.session.end();
                            Action::EndSession
                        }
                    },
                }
            },
            (Phase::Testing, Event::OracleSpawnFailed) => {
                self.phase = Phase::Failed(FailureKind::OracleLaunch);
                self.session.end();
                Action::EndSession
            },
            (Phase::Found(_), _) | (Phase::Exhausted, _) | (Phase::Failed(_), _) => Action::Halt,
            _ => {
                self.phase = Phase::Failed(FailureKind::Backend);
                self.session.end();
                Action::EndSession
            },
        }
    }

    /// The rank currently materialized for this run: the candidate
    /// under test while the search runs, the isolated revision once
    /// found, nothing otherwise.
    pub fn current_head(&self) -> (r: Option<usize>)
        requires
            self.wf(),
        ensures
            match self.phase {
                Phase::Testing => r == Some(self.engine.spec_candidate() as usize),
                Phase::Found(f) => r == Some(f),
                _ => r is None,
            },
    {
        match self.phase {
            Phase::Testing => Some(self.engine.candidate()),
            Phase::Found(f) => Some(f),
            _ => None,
        }
    }

    /// The shape every step has: a terminal state absorbs the event and
    /// owes nothing, and `EndSession` is answered exactly on the
    /// transitions into a terminal phase, which also deactivate the
    /// session.
    pub proof fn lemma_step_shape(self, e: Event)
        ensures
            phase_terminal(self.phase) ==> self.spec_step(e).0 == self && self.spec_step(e).1
                == Action::Halt,
            self.spec_step(e).1 == Action::EndSession <==> (!phase_terminal(self.phase)
                && phase_terminal(self.spec_step(e).0.phase)),
            phase_terminal(self.spec_step(e).0.phase) && !phase_terminal(self.phase)
                ==> !self.spec_step(e).0.session.active,
    {
    }
}

/// The state after a whole sequence of events, step by step.
pub open spec fn trace_state(d: Driver, es: Seq<Event>) -> Driver
    decreases es.len(),
{
    if es.len() == 0 {
        d
    } else {
        trace_state(d.spec_step(es[0]).0, es.drop_first())
    }
}

/// The actions a whole sequence of events draws from the driver, in
/// order.
pub open spec fn trace_actions(d: Driver, es: Seq<Event>) -> Seq<Action>
    decreases es.len(),
{
    if es.len() == 0 {
        Seq::empty()
    } else {
        seq![d.spec_step(es[0]).1] + trace_actions(d.spec_step(es[0]).0, es.drop_first())
    }
}

/// How many of the actions end the session.
pub open spec fn count_session_ends(acts: Seq<Action>) -> nat
    decreases acts.len(),
{
    if acts.len() == 0 {
        0
    } else {
        (if acts[0] == Action::EndSession {
            1nat
        } else {
            0nat
        }) + count_session_ends(acts.drop_first())
    }
}

/// A terminal driver never moves again and never ends the session
/// again.
pub proof fn lemma_terminal_trace(d: Driver, es: Seq<Event>)
    requires
        phase_terminal(d.phase),
    ensures
        trace_state(d, es) == d,
        count_session_ends(trace_actions(d, es)) == 0,
    decreases es.len(),
{
    if es.len() > 0 {
        d.lemma_step_shape(es[0]);
        lemma_terminal_trace(d, es.drop_first());
        assert(trace_actions(d, es).drop_first() == trace_actions(d, es.drop_first()));
    }
}

/// Session safety: however a run unfolds — whatever events arrive, and
/// whichever terminal phase (found, exhausted, failed) it reaches — the
/// driver asks for `EndSession` at most once, exactly once if the run
/// reached a terminal phase, and never before one.
pub proof fn lemma_session_ends_once(d: Driver, es: Seq<Event>)
    requires
        !phase_terminal(d.phase),
    ensures
        count_session_ends(trace_actions(d, es)) <= 1,
        phase_terminal(trace_state(d, es).phase) ==> count_session_ends(trace_actions(d, es))
            == 1,
        !phase_terminal(trace_state(d, es).phase) ==> count_session_ends(trace_actions(d, es))
            == 0,
    decreases es.len(),
{
    if es.len() > 0 {
        let d1 = d.spec_step(es[0]).0;
        d.lemma_step_shape(es[0]);
        assert(trace_actions(d, es).drop_first() == trace_actions(d1, es.drop_first()));
        if phase_terminal(d1.phase) {
            lemma_terminal_trace(d1, es.drop_first());
        } else {
            lemma_session_ends_once(d1, es.drop_first());
        }
    }
}

} // verus!

