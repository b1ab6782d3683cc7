use junit_report::report::Outcome;
use junit_report::report::StepResult;
use junit_report::report::TestCase;
use junit_report::report::TestSuite;
use junit_report::report::SKIP_MESSAGE;

fn result(name: &str, pass: bool, error: Option<&str>) -> StepResult {
    StepResult {
        name: name.to_string(),
        description: None,
        seconds: String::from("0.001"),
        output: String::new(),
        pass,
        error: error.map(|e| e.to_string()),
    }
}

#[test]
fn a_passed_step_has_passed() {
    assert!(matches!(Outcome::of(&result("a", true, None)), Outcome::Passed));
}

#[test]
fn a_passed_step_with_the_skip_message_has_still_passed() {
    let r = result("a", true, Some("Dependency Not Met"));
    assert!(matches!(Outcome::of(&r), Outcome::Passed));
    let suite = TestSuite::from_results(&[r], "0", "");
    assert_eq!(suite.tests(), 1);
    assert_eq!(suite.skipped(), 0);
    assert_eq!(suite.failures(), 0);
}

#[test]
fn the_skip_message_marks_a_skipped_step() {
    assert_eq!(SKIP_MESSAGE, "Dependency Not Met");
    let r = result("b", false, Some("Dependency Not Met"));
    assert!(matches!(Outcome::of(&r), Outcome::Skipped));
}

#[test]
fn any_other_message_marks_a_failed_step() {
    match Outcome::of(&result("c", false, Some("bad\u{1} thing"))) {
        Outcome::Failed { text } => assert_eq!(text, "bad thing"),
        other => panic!("not a failure: {:?}", other),
    }
    match Outcome::of(&result("c", false, Some("dependency not met"))) {
        Outcome::Failed { text } => assert_eq!(text, "dependency not met"),
        other => panic!("not a failure: {:?}", other),
    }
}

#[test]
fn a_failed_step_without_message_has_an_empty_failure() {
    match Outcome::of(&result("d", false, None)) {
        Outcome::Failed { text } => assert_eq!(text, ""),
        other => panic!("not a failure: {:?}", other),
    }
}

#[test]
fn a_case_takes_over_the_fields_of_its_step() {
    let step = StepResult {
        name: String::from("fetch"),
        description: Some(String::from("http")),
        seconds: String::from("1.5"),
        output: String::from("line\u{0} one\n"),
        pass: true,
        error: None,
    };
    let case = TestCase::from_result(&step);
    assert_eq!(case.name, "fetch");
    assert_eq!(case.classname, "http");
    assert_eq!(case.time, "1.5");
    assert_eq!(case.system_out, "line one\n");
    assert!(matches!(case.outcome, Outcome::Passed));
}

#[test]
fn a_step_without_description_has_an_empty_class_name() {
    let case = TestCase::from_result(&result("x", true, None));
    assert_eq!(case.classname, "");
}

#[test]
fn a_suite_counts_its_cases() {
    let results = vec![
        result("a", true, None),
        result("b", false, Some("Dependency Not Met")),
        result("c", false, Some("bad thing")),
        result("d", false, None),
        result("e", false, Some("Dependency Not Met")),
        result("f", true, None),
    ];
    let suite = TestSuite::from_results(&results, "0.006", "here");
    assert_eq!(suite.hostname, "here");
    assert_eq!(suite.time, "0.006");
    assert_eq!(suite.tests(), 6);
    assert_eq!(suite.skipped(), 2);
    assert_eq!(suite.failures(), 2);
    assert!(suite.failures() + suite.skipped() <= suite.tests());
    let names: Vec<&str> = suite.cases.iter().map(|c| c.name.as_str()).collect();
    assert_eq!(names, vec!["a", "b", "c", "d", "e", "f"]);
}

#[test]
fn an_empty_suite_counts_nothing() {
    let suite = TestSuite::from_results(&[], "0", "");
    assert_eq!(suite.tests(), 0);
    assert_eq!(suite.skipped(), 0);
    assert_eq!(suite.failures(), 0);
    assert!(suite.cases.is_empty());
}
