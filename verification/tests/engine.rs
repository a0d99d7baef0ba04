use bisector::driver::SearchOutcome;
use bisector::driver::run_bisection;
use bisector::engine::Bisector;
use bisector::engine::SessionResult;
use bisector::engine::iteration_budget;
use bisector::oracle::Verdict;

fn table(verdicts: &[Verdict]) -> Vec<Verdict> {
    verdicts.to_vec()
}

/// A history of `n` revisions whose defect appears at rank `t` (0-based,
/// oldest first): good strictly before `t`, bad from `t` on.
fn monotone_table(n: usize, t: usize) -> Vec<Verdict> {
    let mut v = Vec::new();
    let mut i: usize = 0;
    while i < n {
        v.push(if i < t { Verdict::Good } else { Verdict::Bad });
        i += 1;
    }
    v
}

#[test]
fn budget_is_log2_ceiling() {
    assert_eq!(iteration_budget(1), 0);
    assert_eq!(iteration_budget(2), 1);
    assert_eq!(iteration_budget(3), 2);
    assert_eq!(iteration_budget(4), 2);
    assert_eq!(iteration_budget(8), 3);
    assert_eq!(iteration_budget(9), 4);
    assert_eq!(iteration_budget(1000), 10);
}

#[test]
fn bracket_narrows_toward_earlier_on_ties() {
    // Eight revisions: the bracket ends are the implicit good point
    // before rank 0 and the assumed-bad rank 7; their mean 3 is the
    // first candidate.
    let b = Bisector::new(8);
    assert_eq!(b.candidate(), 3);
    let mut b = b;
    match b.record_verdict(Verdict::Good) {
        SessionResult::Continue(next) => assert_eq!(next, 5),
        SessionResult::Converged(_) => panic!("narrowed too early"),
    }
    match b.record_verdict(Verdict::Bad) {
        SessionResult::Continue(next) => assert_eq!(next, 4),
        SessionResult::Converged(_) => panic!("narrowed too early"),
    }
    match b.record_verdict(Verdict::Bad) {
        SessionResult::Converged(first_bad) => assert_eq!(first_bad, 4),
        SessionResult::Continue(_) => panic!("failed to converge"),
    }
}

#[test]
fn scenario_defect_at_revision_five_of_eight() {
    // 1-indexed revision 5 is rank 4: found within ceil(log2(8)) = 3
    // iterations.
    let v = monotone_table(8, 4);
    let r = run_bisection(&v);
    assert_eq!(r.outcome, SearchOutcome::Found(4));
    assert!(r.iterations <= 3);
}

#[test]
fn every_transition_of_eight_below_newest_is_found() {
    for t in 0..7 {
        let v = monotone_table(8, t);
        let r = run_bisection(&v);
        assert_eq!(r.outcome, SearchOutcome::Found(t));
        assert!(r.iterations <= 3);
    }
}

#[test]
fn scenario_no_defect_exhausts_budget() {
    // The test command always succeeds: the search never announces a
    // first bad revision and stops after exactly ceil(log2(8)) = 3
    // iterations.
    let v = monotone_table(8, 8);
    let r = run_bisection(&v);
    assert_eq!(r.outcome, SearchOutcome::Exhausted);
    assert_eq!(r.iterations, 3);
}

#[test]
fn defect_predating_oldest_is_found_at_oldest() {
    let v = monotone_table(8, 0);
    let r = run_bisection(&v);
    assert_eq!(r.outcome, SearchOutcome::Found(0));
}

#[test]
fn defect_only_at_newest_is_never_confirmed() {
    // The newest revision is assumed bad but never tested, so a defect
    // living only there cannot be announced: the run exhausts instead.
    let v = table(&[Verdict::Good, Verdict::Bad]);
    let r = run_bisection(&v);
    assert_eq!(r.outcome, SearchOutcome::Exhausted);
    assert_eq!(r.iterations, 1);
}

#[test]
fn single_revision_history_exhausts_without_testing() {
    let v = table(&[Verdict::Bad]);
    let r = run_bisection(&v);
    assert_eq!(r.outcome, SearchOutcome::Exhausted);
    assert_eq!(r.iterations, 0);
}

#[test]
fn flaky_oracle_still_terminates_within_budget() {
    let v = table(&[
        Verdict::Bad,
        Verdict::Good,
        Verdict::Bad,
        Verdict::Good,
        Verdict::Bad,
        Verdict::Good,
        Verdict::Bad,
        Verdict::Bad,
    ]);
    let r = run_bisection(&v);
    assert!(r.iterations <= 3);
    // Whatever is announced was observed bad right after an observed
    // good.
    match r.outcome {
        SearchOutcome::Found(f) => {
            assert_eq!(v[f], Verdict::Bad);
            if f > 0 {
                assert_eq!(v[f - 1], Verdict::Good);
            }
        }
        SearchOutcome::Exhausted => {}
    }
}

#[test]
fn large_history_converges_within_budget() {
    let v = monotone_table(1000, 617);
    let r = run_bisection(&v);
    assert_eq!(r.outcome, SearchOutcome::Found(617));
    assert!(r.iterations <= 10);
}
