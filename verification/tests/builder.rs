use hwlocality::builder::{read_report, Report};

#[test]
fn success_is_a_result_of_zero() {
    assert_eq!(read_report(0, 0, Some(22)), Report::Done);
    assert_eq!(read_report(0, 22, Some(22)), Report::Done);
    assert_eq!(read_report(0, 5, None), Report::Done);
}

#[test]
fn a_foreseen_failure_is_a_refusal() {
    assert_eq!(read_report(-1, 22, Some(22)), Report::Refused);
    assert_eq!(read_report(-1, 38, Some(38)), Report::Refused);
    assert_eq!(read_report(-1, 12, None), Report::Refused);
    assert_eq!(read_report(-1, 0, None), Report::Refused);
}

#[test]
fn anything_else_is_unexpected() {
    assert_eq!(read_report(-1, 12, Some(22)), Report::Unexpected);
    assert_eq!(read_report(-1, 0, Some(38)), Report::Unexpected);
    assert_eq!(read_report(1, 0, Some(22)), Report::Unexpected);
    assert_eq!(read_report(-2, 22, Some(22)), Report::Unexpected);
    assert_eq!(read_report(7, 0, None), Report::Unexpected);
    assert_eq!(read_report(i32::MIN, 0, None), Report::Unexpected);
}
