use sire_smt::CheckResult;

#[test]
fn classifies_sat() {
    assert_eq!(CheckResult::from_string("sat\n".to_string()), CheckResult::Sat);
}

#[test]
fn classifies_unsat() {
    assert_eq!(CheckResult::from_string("unsat\n".to_string()), CheckResult::Unsat);
}

#[test]
fn classifies_unknown_verdict() {
    assert_eq!(CheckResult::from_string("unknown\n".to_string()), CheckResult::Undecided);
}

#[test]
fn empty_output_is_unknown() {
    assert_eq!(
        CheckResult::from_string(String::new()),
        CheckResult::Unknown(String::new())
    );
}

#[test]
fn missing_newline_is_unknown() {
    assert_eq!(
        CheckResult::from_string("sat".to_string()),
        CheckResult::Unknown("sat".to_string())
    );
}

#[test]
fn diagnostic_text_is_unknown_and_kept_exactly() {
    assert_eq!(
        CheckResult::from_string("error: foo\n".to_string()),
        CheckResult::Unknown("error: foo\n".to_string())
    );
}

#[test]
fn multi_line_output_is_unknown() {
    assert_eq!(
        CheckResult::from_string("sat\nsat\n".to_string()),
        CheckResult::Unknown("sat\nsat\n".to_string())
    );
}
