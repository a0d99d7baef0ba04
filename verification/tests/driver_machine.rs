use bisector::driver::Action;
use bisector::driver::Driver;
use bisector::driver::Event;
use bisector::driver::FailureKind;
use bisector::driver::Phase;
use bisector::history::Git;

fn count_session_ends(actions: &[Action]) -> usize {
    actions.iter().filter(|a| **a == Action::EndSession).count()
}

#[test]
fn scenario_oracle_launch_error_tears_session_down() {
    // The test command binary cannot be spawned: the run fails on the
    // first iteration and the session is ended exactly once.
    let mut d = Driver::new(8);
    let mut actions = Vec::new();
    assert_eq!(d.initial_action(), Action::StartSession);
    actions.push(d.step(Event::SessionStarted));
    assert_eq!(actions[0], Action::RunOracle(3));
    actions.push(d.step(Event::OracleSpawnFailed));
    assert_eq!(actions[1], Action::EndSession);
    assert_eq!(d.phase, Phase::Failed(FailureKind::OracleLaunch));
    // A terminal driver absorbs further events and never ends the
    // session again.
    actions.push(d.step(Event::OracleExit(0)));
    assert_eq!(actions[2], Action::Halt);
    assert_eq!(d.phase, Phase::Failed(FailureKind::OracleLaunch));
    assert_eq!(count_session_ends(&actions), 1);
    assert!(!d.session.active);
}

#[test]
fn scenario_self_heal_after_crashed_run() {
    // A session left active by a crashed run: one automatic reset, then
    // the search proceeds normally to completion (defect at rank 4 of
    // 8).
    let mut d = Driver::new(8);
    let mut actions = Vec::new();
    assert_eq!(d.initial_action(), Action::StartSession);
    actions.push(d.step(Event::SessionConflict));
    assert_eq!(actions[0], Action::ResetSession);
    assert_eq!(d.phase, Phase::Healing);
    actions.push(d.step(Event::SessionReset));
    assert_eq!(actions[1], Action::StartSession);
    actions.push(d.step(Event::SessionStarted));
    assert_eq!(actions[2], Action::RunOracle(3));
    assert_eq!(d.current_head(), Some(3));
    actions.push(d.step(Event::OracleExit(0)));
    assert_eq!(actions[3], Action::RunOracle(5));
    actions.push(d.step(Event::OracleExit(1)));
    assert_eq!(actions[4], Action::RunOracle(4));
    actions.push(d.step(Event::OracleExit(2)));
    assert_eq!(actions[5], Action::EndSession);
    assert_eq!(d.phase, Phase::Found(4));
    assert_eq!(d.current_head(), Some(4));
    assert_eq!(d.iterations, 3);
    assert_eq!(count_session_ends(&actions), 1);
    assert!(!d.session.active);
}

#[test]
fn second_conflict_is_fatal() {
    let mut d = Driver::new(8);
    assert_eq!(d.step(Event::SessionConflict), Action::ResetSession);
    assert_eq!(d.step(Event::SessionReset), Action::StartSession);
    assert_eq!(d.step(Event::SessionConflict), Action::EndSession);
    assert_eq!(d.phase, Phase::Failed(FailureKind::SessionConflict));
    assert!(!d.session.active);
}

#[test]
fn always_good_oracle_exhausts_the_machine() {
    let mut d = Driver::new(8);
    let mut actions = Vec::new();
    actions.push(d.step(Event::SessionStarted));
    assert_eq!(actions[0], Action::RunOracle(3));
    actions.push(d.step(Event::OracleExit(0)));
    assert_eq!(actions[1], Action::RunOracle(5));
    actions.push(d.step(Event::OracleExit(0)));
    assert_eq!(actions[2], Action::RunOracle(6));
    actions.push(d.step(Event::OracleExit(0)));
    assert_eq!(actions[3], Action::EndSession);
    assert_eq!(d.phase, Phase::Exhausted);
    assert_eq!(d.iterations, 3);
    assert_eq!(count_session_ends(&actions), 1);
}

#[test]
fn unexpected_event_fails_the_run() {
    let mut d = Driver::new(4);
    assert_eq!(d.step(Event::OracleExit(0)), Action::EndSession);
    assert_eq!(d.phase, Phase::Failed(FailureKind::Backend));
    assert!(!d.session.active);
}

#[test]
fn full_run_over_a_parsed_history() {
    // Eight commits, newest first in the log; the defect appears at the
    // 1-indexed revision 5, which is rank 4 oldest-first.
    let log = "h8,d,m\nh7,d,m\nh6,d,m\nh5,d,m\nh4,d,m\nh3,d,m\nh2,d,m\nh1,d,m";
    let git = Git::new(log).unwrap();
    assert_eq!(git.count(), 8);
    let mut d = Driver::new(git.count());
    let mut action = d.initial_action();
    let mut ends = 0;
    loop {
        let event = match action {
            Action::StartSession => Event::SessionStarted,
            Action::ResetSession => Event::SessionReset,
            Action::RunOracle(rank) => Event::OracleExit(if rank < 4 { 0 } else { 1 }),
            Action::EndSession => {
                ends += 1;
                break;
            }
            Action::Halt => break,
        };
        action = d.step(event);
    }
    assert_eq!(ends, 1);
    match d.phase {
        Phase::Found(rank) => assert_eq!(git.commits[rank].hash, "h5"),
        _ => panic!("expected the defect to be found"),
    }
}

#[test]
fn single_revision_run_ends_at_once() {
    let mut d = Driver::new(1);
    assert_eq!(d.step(Event::SessionStarted), Action::EndSession);
    assert_eq!(d.phase, Phase::Exhausted);
    assert_eq!(d.iterations, 0);
}
