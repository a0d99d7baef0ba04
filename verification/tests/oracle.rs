use bisector::oracle::Verdict;
use bisector::oracle::verdict_of_exit;

#[test]
fn exit_zero_is_good() {
    assert_eq!(verdict_of_exit(0), Verdict::Good);
}

#[test]
fn nonzero_exits_are_bad() {
    assert_eq!(verdict_of_exit(1), Verdict::Bad);
    assert_eq!(verdict_of_exit(2), Verdict::Bad);
    assert_eq!(verdict_of_exit(127), Verdict::Bad);
    assert_eq!(verdict_of_exit(255), Verdict::Bad);
}

#[test]
fn negative_exit_is_bad() {
    assert_eq!(verdict_of_exit(-1), Verdict::Bad);
}
