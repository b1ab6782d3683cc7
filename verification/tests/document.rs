use junit_report::create_junit;
use junit_report::junit_document;
use junit_report::report::Outcome;
use junit_report::report::StepResult;
use junit_report::report::TestCase;
use junit_report::report::TestSuite;
use junit_report::writer::checked;
use junit_report::writer::render;
use junit_report::writer::ReportError;
use junit_report::writer::FAILURE_MESSAGE;
use junit_report::writer::SUITE_NAME;

fn step(
    name: &str,
    description: Option<&str>,
    duration: f32,
    output: &str,
    pass: bool,
    error: Option<&str>,
) -> StepResult {
    StepResult {
        name: name.to_string(),
        description: description.map(|d| d.to_string()),
        seconds: (duration / 1000f32).to_string(),
        output: output.to_string(),
        pass,
        error: error.map(|e| e.to_string()),
    }
}

fn total(durations: &[f32]) -> String {
    durations
        .iter()
        .fold(0f32, |sum, d| sum + (d / 1000f32))
        .to_string()
}

fn text(bytes: Vec<u8>) -> String {
    String::from_utf8(bytes).unwrap()
}

fn three_steps() -> Vec<StepResult> {
    vec![
        step("a", None, 500f32, "ok", true, None),
        step("b", Some("grp"), 250f32, "", false, Some("Dependency Not Met")),
        step("c", None, 100f32, "boom\u{1}", false, Some("bad thing")),
    ]
}

#[test]
fn three_steps_give_the_whole_document() {
    let time = total(&[500f32, 250f32, 100f32]);
    let doc = text(junit_document(&three_steps(), &time, "host").unwrap());
    let expected = "<?xml version=\"1.0\" encoding=\"UTF-8\"?>\n\
<testsuite name=\"lorikeet\" hostname=\"host\" tests=\"3\" failures=\"1\" skipped=\"1\" time=\"0.85\">\n\
\x20   <testcase name=\"a\" classname=\"\" time=\"0.5\">\n\
\x20       <system-out>ok</system-out>\n\
\x20   </testcase>\n\
\x20   <testcase name=\"b\" classname=\"grp\" time=\"0.25\">\n\
\x20       <system-out></system-out>\n\
\x20       <skipped message=\"Dependency Not Met\"/>\n\
\x20   </testcase>\n\
\x20   <testcase name=\"c\" classname=\"\" time=\"0.1\">\n\
\x20       <system-out>boom</system-out>\n\
\x20       <failure message=\"Step failed to finish\">bad thing</failure>\n\
\x20   </testcase>\n\
</testsuite>";
    assert_eq!(doc, expected);
}

#[test]
fn no_steps_give_an_empty_suite() {
    let time = total(&[]);
    let doc = text(junit_document(&[], &time, "").unwrap());
    let expected = "<?xml version=\"1.0\" encoding=\"UTF-8\"?>\n\
<testsuite name=\"lorikeet\" hostname=\"\" tests=\"0\" failures=\"0\" skipped=\"0\" time=\"0\">\n\
</testsuite>";
    assert_eq!(doc, expected);
    assert!(!doc.contains("<testcase"));
}

#[test]
fn given_hostname_is_reported() {
    let doc = text(create_junit(&three_steps(), "0.85", Some("build-7")).unwrap());
    assert!(doc.contains(" hostname=\"build-7\" "));
}

#[test]
fn missing_hostname_is_looked_up_and_never_fails() {
    let doc = text(create_junit(&[], "0", None).unwrap());
    assert!(doc.starts_with("<?xml version=\"1.0\" encoding=\"UTF-8\"?>\n<testsuite name=\"lorikeet\" hostname=\""));
    assert!(doc.ends_with(" tests=\"0\" failures=\"0\" skipped=\"0\" time=\"0\">\n</testsuite>"));
}

#[test]
fn time_is_the_sum_of_the_durations_in_seconds() {
    let time = total(&[500f32, 250f32, 100f32]);
    let seconds: f32 = time.parse().unwrap();
    assert!((seconds - 0.85f32).abs() < 1e-6);
    let doc = text(junit_document(&three_steps(), &time, "h").unwrap());
    assert!(doc.contains(" time=\"0.85\">"));
    assert!(doc.contains("<testcase name=\"a\" classname=\"\" time=\"0.5\">"));
    assert!(doc.contains("<testcase name=\"b\" classname=\"grp\" time=\"0.25\">"));
    assert!(doc.contains("<testcase name=\"c\" classname=\"\" time=\"0.1\">"));
}

#[test]
fn a_passed_case_has_no_skipped_or_failure_child() {
    let steps = vec![step("only", None, 1f32, "fine", true, Some("ignored"))];
    let doc = text(junit_document(&steps, "0.001", "h").unwrap());
    assert!(doc.contains("<system-out>fine</system-out>"));
    assert!(!doc.contains("<skipped"));
    assert!(!doc.contains("<failure"));
    assert!(doc.contains(" tests=\"1\" failures=\"0\" skipped=\"0\" "));
}

#[test]
fn a_failure_without_message_has_an_empty_failure_element() {
    let steps = vec![step("f", None, 1f32, "", false, None)];
    let doc = text(junit_document(&steps, "0.001", "h").unwrap());
    assert!(doc.contains("\n        <failure message=\"Step failed to finish\"></failure>\n"));
    assert!(doc.contains(" tests=\"1\" failures=\"1\" skipped=\"0\" "));
}

#[test]
fn cases_follow_the_order_of_the_steps() {
    let steps = vec![
        step("third", None, 1f32, "", true, None),
        step("first", None, 1f32, "", true, None),
        step("second", None, 1f32, "", true, None),
    ];
    let doc = text(junit_document(&steps, "0.003", "h").unwrap());
    let a = doc.find("name=\"third\"").unwrap();
    let b = doc.find("name=\"first\"").unwrap();
    let c = doc.find("name=\"second\"").unwrap();
    assert!(a < b && b < c);
}

#[test]
fn counts_of_several_digits_are_written_in_full() {
    let mut steps = Vec::new();
    for i in 0..123 {
        steps.push(step(&format!("s{}", i), None, 1f32, "", i % 10 != 0, Some("x")));
    }
    let doc = text(junit_document(&steps, "0.123", "h").unwrap());
    assert!(doc.contains(" tests=\"123\" failures=\"13\" skipped=\"0\" "));
    assert_eq!(doc.matches("<testcase ").count(), 123);
    assert_eq!(doc.matches("<failure ").count(), 13);
}

#[test]
fn markup_in_text_is_escaped() {
    let steps = vec![step("t", None, 1f32, "a<b>c&d'e\"f\rg\nh\ti", false, Some("<x> & 'y' \"z\"\r"))];
    let doc = text(junit_document(&steps, "0.001", "h").unwrap());
    assert!(doc.contains("<system-out>a&lt;b&gt;c&amp;d&apos;e&quot;f&#13;g\nh\ti</system-out>"));
    assert!(doc.contains(
        "<failure message=\"Step failed to finish\">&lt;x&gt; &amp; &apos;y&apos; &quot;z&quot;&#13;</failure>"
    ));
}

#[test]
fn markup_in_attributes_is_escaped() {
    let steps = vec![step("a<b>&'\"\r\n\tz", Some("x&y"), 1f32, "", true, None)];
    let doc = text(junit_document(&steps, "1<2", "h\"ost").unwrap());
    assert!(doc.contains(
        "<testcase name=\"a&lt;b&gt;&amp;&apos;&quot;&#13;&#10;&#9;z\" classname=\"x&amp;y\" time=\"0.001\">"
    ));
    assert!(doc.contains(" hostname=\"h&quot;ost\" "));
    assert!(doc.contains(" time=\"1&lt;2\">"));
}

#[test]
fn attributes_are_not_filtered() {
    let steps = vec![step("n\u{1}m", Some("d\u{0}"), 1f32, "o\u{1}", true, None)];
    let doc = text(junit_document(&steps, "0.001", "h").unwrap());
    assert!(doc.contains("<testcase name=\"n\u{1}m\" classname=\"d\u{0}\" "));
    assert!(doc.contains("<system-out>o</system-out>"));
}

#[test]
fn text_beyond_ascii_is_written_as_utf8() {
    let steps = vec![step("caf\u{e9}", None, 1f32, "\u{4e2d}\u{6587} \u{1f600}", true, None)];
    let bytes = junit_document(&steps, "0.001", "h").unwrap();
    let doc = String::from_utf8(bytes).unwrap();
    assert!(doc.contains("<testcase name=\"caf\u{e9}\" "));
    assert!(doc.contains("<system-out>\u{4e2d}\u{6587} </system-out>"));
}

#[test]
fn a_suite_built_by_hand_is_rendered_as_it_is() {
    assert_eq!(SUITE_NAME, "lorikeet");
    assert_eq!(FAILURE_MESSAGE, "Step failed to finish");
    let suite = TestSuite {
        hostname: String::from("h"),
        time: String::from("2"),
        cases: vec![
            TestCase {
                name: String::from("one"),
                classname: String::from("k"),
                time: String::from("2"),
                system_out: String::from("out"),
                outcome: Outcome::Failed { text: String::from("why") },
            },
        ],
    };
    let doc = text(render(&suite).unwrap());
    let expected = "<?xml version=\"1.0\" encoding=\"UTF-8\"?>\n\
<testsuite name=\"lorikeet\" hostname=\"h\" tests=\"1\" failures=\"1\" skipped=\"0\" time=\"2\">\n\
\x20   <testcase name=\"one\" classname=\"k\" time=\"2\">\n\
\x20       <system-out>out</system-out>\n\
\x20       <failure message=\"Step failed to finish\">why</failure>\n\
\x20   </testcase>\n\
</testsuite>";
    assert_eq!(doc, expected);
}

#[test]
fn the_same_input_gives_the_same_document() {
    let time = total(&[500f32, 250f32, 100f32]);
    let first = junit_document(&three_steps(), &time, "h").unwrap();
    let second = junit_document(&three_steps(), &time, "h").unwrap();
    assert_eq!(first, second);
}

#[test]
fn a_refusal_of_the_sink_becomes_a_write_error() {
    let cause = std::io::Error::new(std::io::ErrorKind::Other, "disk full");
    match checked(Err(cause)) {
        Err(ReportError::Write(e)) => assert_eq!(e.to_string(), "disk full"),
        Ok(()) => panic!("an error was expected"),
    }
    assert!(checked(Ok(())).is_ok());
}
