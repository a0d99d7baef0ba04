//! The self-managed bisection engine: the bracket-narrowing state that
//! isolates the first bad revision of an ordered history.
//!
//! Revisions are addressed by their rank in the history, `0` for the
//! oldest.  The engine keeps a bracket whose lower end is known good and
//! whose upper end is known bad.  The point just before the oldest
//! revision counts as an implicitly good lower end, so the bracket's
//! lower bound is stored as `lo_plus`, the number of revisions known to
//! precede the defect.  The newest revision is assumed bad when a search
//! starts; `confirmed` records whether some revision was actually
//! observed bad by the oracle, which is required before the engine will
//! announce convergence.

use vstd::prelude::*;

use crate::oracle::Verdict;

verus! {

/// What the engine reports after a verdict is recorded: either the
/// search goes on, with the rank the driver should test next, or it has
/// converged on the rank of the first bad revision.
#[derive(Clone, Copy, Debug, PartialEq, Eq, Structural)]
pub enum SessionResult {
    /// Keep searching; the payload is the next candidate rank.
    Continue(usize),
    /// The search is over; the payload is the first bad rank.
    Converged(usize),
}

/// The bracket of one bisection search over `n` revisions.
#[derive(Clone, Copy, Debug, PartialEq, Eq, Structural)]
pub struct Bisector {
    /// How many revisions the history holds.
    pub n: usize,
    /// Ranks `0 .. lo_plus` are known good; `lo_plus == 0` means only the
    /// implicit point before the oldest revision is known good.
    pub lo_plus: usize,
    /// The smallest rank known (or, before `confirmed`, assumed) bad.
    pub hi: usize,
    /// Whether some revision was observed bad by the oracle, rather than
    /// merely assumed bad at session start.
    pub confirmed: bool,
}

impl Bisector {
    /// The bracket is well formed: it lies inside the history, and while
    /// no bad verdict has been observed the bad end is still the newest
    /// revision, where it was placed at session start.
    pub open spec fn wf(self) -> bool {
        &&& 1 <= self.n
        &&& self.lo_plus <= self.hi
        &&& self.hi < self.n
        &&& (!self.confirmed ==> self.hi == self.n - 1)
    }

    /// How many revisions are still in doubt: those with ranks in
    /// `lo_plus ..= hi`.  At least 1 for a well-formed bracket; 1 means
    /// the bracket has narrowed to a single revision.
    pub open spec fn gap(self) -> int {
        self.hi + 1 - self.lo_plus
    }

    /// Whether a revision strictly inside the bracket remains to be
    /// tested.
    pub open spec fn has_candidate(self) -> bool {
        self.gap() >= 2
    }

    /// The candidate rank: the arithmetic mean of the bracket ends,
    /// rounded toward the earlier revision.  The good end is the rank
    /// just below `lo_plus`.
    pub open spec fn spec_candidate(self) -> int {
        (self.lo_plus - 1 + self.hi) / 2
    }

    /// The bracket after a verdict at the candidate: a good candidate
    /// raises the good end, a bad one lowers the bad end and confirms it.
    pub open spec fn spec_apply(self, v: Verdict) -> Bisector {
        match v {
            Verdict::Good => Bisector { lo_plus: (self.spec_candidate() + 1) as usize, ..self },
            Verdict::Bad => Bisector { hi: self.spec_candidate() as usize, confirmed: true, ..self },
        }
    }

    /// What a bracket reports of itself: convergence once a single,
    /// oracle-confirmed revision remains, otherwise the rank to test
    /// next.  A bracket narrowed to one revision that was never observed
    /// bad does not converge — its only hint left is that revision
    /// itself.
    pub open spec fn spec_result(self) -> SessionResult {
        if self.gap() == 1 {
            if self.confirmed {
                SessionResult::Converged(self.hi)
            } else {
                SessionResult::Continue(self.hi)
            }
        } else {
            SessionResult::Continue(self.spec_candidate() as usize)
        }
    }

    /// The candidate lies strictly inside the bracket.
    pub proof fn lemma_candidate_bounds(self)
        requires
            self.wf(),
            self.has_candidate(),
        ensures
            self.lo_plus <= self.spec_candidate() < self.hi,
    {
    }

    /// Open a fresh search over `n` revisions.  The newest revision
    /// (rank `n - 1`) is force-classified bad, unconfirmed; nothing is
    /// known good yet except the implicit point before the oldest.
    pub fn new(n: usize) -> (b: Bisector)
        requires
            1 <= n,
        ensures
            b.wf(),
            b == (Bisector { n, lo_plus: 0, hi: (n - 1) as usize, confirmed: false }),
            b.gap() == n,
    {
        Bisector { n, lo_plus: 0, hi: n - 1, confirmed: false }
    }

    /// Whether a revision strictly inside the bracket remains to be
    /// tested.
    pub fn remains_open(&self) -> (r: bool)
        requires
            self.wf(),
        ensures
            r == self.has_candidate(),
    {
        self.hi - self.lo_plus >= 1
    }

    /// The rank the oracle should test next.
    pub fn candidate(&self) -> (c: usize)
        requires
            self.wf(),
            self.has_candidate(),
        ensures
            c == self.spec_candidate(),
    {
        let width = self.hi - self.lo_plus + 1;
        self.lo_plus + (width - 2) / 2
    }

    /// Record the oracle's verdict on the current candidate and narrow
    /// the bracket.  The doubt gap at least halves on every call, so a
    /// search over `n` revisions converges within `log2_ceil(n)` calls.
    pub fn record_verdict(&mut self, v: Verdict) -> (r: SessionResult)
        requires
            old(self).wf(),
            old(self).has_candidate(),
        ensures
            *final(self) == old(self).spec_apply(v),
            final(self).wf(),
            r == final(self).spec_result(),
            1 <= final(self).gap(),
            2 * final(self).gap() <= old(self).gap() + 1,
    {
        proof {
            old(self).lemma_candidate_bounds();
        }
        let c = self.candidate();
        match v {
            Verdict::Good => {
                self.lo_plus = c + 1;
            }
            Verdict::Bad => {
                self.hi = c;
                self.confirmed = true;
            }
        }
        if self.hi - self.lo_plus >= 1 {
            let next = self.candidate();
            SessionResult::Continue(next)
        } else {
            if self.confirmed {
                SessionResult::Converged(self.hi)
            } else {
                SessionResult::Continue(self.hi)
            }
        }
    }
}

/// `2^k`, the capacity of `k` further halvings of the doubt gap.
pub open spec fn pow2(k: nat) -> nat
    decreases k,
{
    if k == 0 {
        1
    } else {
        2 * pow2((k - 1) as nat)
    }
}

/// `ceil(log2(n))`: how many halvings take `n` down to 1, and hence the
/// iteration budget of a bisection over `n` revisions.
pub open spec fn log2_ceil(n: nat) -> nat
    decreases n,
{
    if n <= 1 {
        0
    } else {
        1 + log2_ceil(((n + 1) / 2) as nat)
    }
}

/// The budget is large enough: `n` fits under `2^log2_ceil(n)`.
pub proof fn lemma_log2_ceil_bound(n: nat)
    requires
        1 <= n,
    ensures
        n <= pow2(log2_ceil(n)),
    decreases n,
{
    if n > 1 {
        let m = ((n + 1) / 2) as nat;
        lemma_log2_ceil_bound(m);
    }
}

/// The budget is modest: `log2_ceil(n)` never exceeds `n` itself.
pub proof fn lemma_log2_ceil_le(n: nat)
    ensures
        log2_ceil(n) <= n,
    decreases n,
{
    if n > 1 {
        let m = ((n + 1) / 2) as nat;
        lemma_log2_ceil_le(m);
    }
}

/// The iteration budget of a search over `n` revisions: `ceil(log2(n))`.
/// A balanced binary search over `n` ordered revisions converges within
/// that many verdicts, and the driver enforces it as a hard ceiling.
pub fn iteration_budget(n: usize) -> (b: usize)
    requires
        1 <= n,
    ensures
        b == log2_ceil(n as nat),
{
    let mut m: usize = n;
    let mut b: usize = 0;
    proof {
        lemma_log2_ceil_le(n as nat);
    }
    while m > 1
        invariant
            1 <= m <= n,
            b + log2_ceil(m as nat) == log2_ceil(n as nat),
            log2_ceil(n as nat) <= n,
        decreases m,
    {
        m = m / 2 + m % 2;
        b = b + 1;
    }
    b
}

} // verus!
