//! Writing a suite as an XML document.
//!
//! [`suite_text`] says what the document is, character by character.
//! [`render`] produces it by handing the suite to the XML writer one event at
//! a time; the proof follows the writer's indentation through every event.
use crate::chars::filtered;
use crate::markup::{
    attribute, declaration, empty_tag, end_tag, escaped_text, lemma_encode_append, start_tag,
    tag_lead,
};
use crate::report::{
    case_of, lemma_empty_suite, message_of, suite_of, CaseView, Outcome, OutcomeView, StepView,
    SuiteView, TestCase, TestSuite, SKIP_MESSAGE,
};
use crate::text::{decimal, decimal_string};
use crate::xml::{
    breaks_line, close_writer, indent_char, indent_size, indent_width, indenting, new_tag,
    open_writer, push_attribute, spaced_slash, tag_content, write_event, written, Markup,
};
use quick_xml::events::BytesStart;
use quick_xml::Writer;
use vstd::prelude::*;
use vstd::utf8::encode_utf8;

verus! {

/// The character that indents a line of the document.
pub const INDENT_CHAR: u8 = 32;

/// How many indentation characters one level of nesting adds.
pub const INDENT_SIZE: usize = 4;

/// The XML version that the declaration names.
pub const XML_VERSION: &'static str = "1.0";

/// The encoding that the declaration names.
pub const XML_ENCODING: &'static str = "UTF-8";

/// The `name` attribute of every suite.
pub const SUITE_NAME: &'static str = "lorikeet";

/// The `message` attribute of every `failure` element.
pub const FAILURE_MESSAGE: &'static str = "Step failed to finish";

/// What a report function returns in place of a document. The functions of
/// this crate write into memory and never return it; the type is there
/// because the XML writer's own result has an error.
#[derive(Debug)]
pub enum ReportError {
    /// The XML writer could not put bytes into its sink.
    Write(std::io::Error),
}

/// The line break and indentation in front of a tag at nesting depth
/// `level`.
pub open spec fn line(level: nat) -> Seq<char> {
    tag_lead(true, INDENT_CHAR as char, level * INDENT_SIZE as nat)
}

/// The inside of the start tag of a `testcase` element.
pub open spec fn case_tag(case: CaseView) -> Seq<char> {
    "testcase"@ + attribute("name"@, case.name) + attribute("classname"@, case.classname)
        + attribute("time"@, case.time)
}

/// The `skipped` or `failure` child of a `testcase` element, on a line of
/// its own, or nothing for a case that passed.
pub open spec fn outcome_text(outcome: OutcomeView) -> Seq<char> {
    match outcome {
        OutcomeView::Passed => Seq::empty(),
        OutcomeView::Skipped => line(2) + empty_tag(
            "skipped"@ + attribute("message"@, SKIP_MESSAGE@),
            false,
        ),
        OutcomeView::Failed { text } => line(2) + start_tag(
            "failure"@ + attribute("message"@, FAILURE_MESSAGE@),
        ) + escaped_text(text) + end_tag("failure"@),
    }
}

/// One `testcase` element: its start tag, the `system-out` child with the
/// captured output, the child for its outcome if it has one, and its end tag.
pub open spec fn case_text(case: CaseView) -> Seq<char> {
    line(1) + start_tag(case_tag(case)) + line(2) + start_tag("system-out"@) + escaped_text(
        case.system_out,
    ) + end_tag("system-out"@) + outcome_text(case.outcome) + line(1) + end_tag("testcase"@)
}

/// The `testcase` elements of `cases`, one after the other.
pub open spec fn cases_text(cases: Seq<CaseView>) -> Seq<char> {
    cases.flat_map(|c: CaseView| case_text(c))
}

/// The inside of the start tag of the `testsuite` element.
pub open spec fn suite_tag(suite: SuiteView) -> Seq<char> {
    "testsuite"@ + attribute("name"@, SUITE_NAME@) + attribute("hostname"@, suite.hostname)
        + attribute("tests"@, decimal(suite.tests())) + attribute(
        "failures"@,
        decimal(suite.failures()),
    ) + attribute("skipped"@, decimal(suite.skipped())) + attribute("time"@, suite.time)
}

/// The `testsuite` element with all its cases.
pub open spec fn element_text(suite: SuiteView) -> Seq<char> {
    line(0) + start_tag(suite_tag(suite)) + cases_text(suite.cases) + line(0) + end_tag(
        "testsuite"@,
    )
}

/// The whole document: the XML declaration, then the `testsuite` element.
pub open spec fn suite_text(suite: SuiteView) -> Seq<char> {
    declaration(XML_VERSION@, XML_ENCODING@) + element_text(suite)
}

/// The case of a step that passed has its `system-out` child and neither a
/// `skipped` nor a `failure` child.
pub proof fn lemma_passed_case_text(result: StepView)
    requires
        result.pass,
    ensures
        outcome_text(case_of(result).outcome) == Seq::<char>::empty(),
        case_text(case_of(result)) == line(1) + start_tag(case_tag(case_of(result))) + line(2)
            + start_tag("system-out"@) + escaped_text(filtered(result.output)) + end_tag(
            "system-out"@,
        ) + line(1) + end_tag("testcase"@),
{
    let case = case_of(result);
    let head = line(1) + start_tag(case_tag(case)) + line(2) + start_tag("system-out"@)
        + escaped_text(case.system_out) + end_tag("system-out"@);
    assert(head + Seq::<char>::empty() =~= head);
}

/// The case of a step that did not pass and whose message is
/// [`SKIP_MESSAGE`] has an empty `skipped` child with that message.
pub proof fn lemma_skipped_case_text(result: StepView)
    requires
        !result.pass,
        result.error == Some(SKIP_MESSAGE@),
    ensures
        outcome_text(case_of(result).outcome) == line(2) + empty_tag(
            "skipped"@ + attribute("message"@, SKIP_MESSAGE@),
            false,
        ),
{
}

/// The case of a step that did not pass and has another message, or none,
/// has a `failure` child whose text is the filtered message.
pub proof fn lemma_failed_case_text(result: StepView)
    requires
        !result.pass,
        result.error != Some(SKIP_MESSAGE@),
    ensures
        outcome_text(case_of(result).outcome) == line(2) + start_tag(
            "failure"@ + attribute("message"@, FAILURE_MESSAGE@),
        ) + escaped_text(filtered(message_of(result))) + end_tag("failure"@),
{
    reveal_strlit("Dependency Not Met");
    assert(SKIP_MESSAGE@.len() > 0);
}

/// The document for the empty list of steps: the declaration and a
/// `testsuite` element whose three counts are `0` and which has no
/// `testcase` child.
pub proof fn lemma_empty_document(time: Seq<char>, hostname: Seq<char>)
    ensures
        suite_text(suite_of(Seq::empty(), time, hostname)) == declaration(
            XML_VERSION@,
            XML_ENCODING@,
        ) + line(0) + start_tag(
            "testsuite"@ + attribute("name"@, SUITE_NAME@) + attribute("hostname"@, hostname)
                + attribute("tests"@, seq!['0']) + attribute("failures"@, seq!['0']) + attribute(
                "skipped"@,
                seq!['0'],
            ) + attribute("time"@, time),
        ) + line(0) + end_tag("testsuite"@),
{
    let suite = suite_of(Seq::empty(), time, hostname);
    lemma_empty_suite(time, hostname);
    assert(cases_text(suite.cases) =~= Seq::<char>::empty());
    assert(decimal(0) =~= seq!['0']);
    let opened = line(0) + start_tag(suite_tag(suite));
    assert(opened + Seq::<char>::empty() =~= opened);
    assert(suite_text(suite) =~= declaration(XML_VERSION@, XML_ENCODING@) + line(0) + start_tag(
        suite_tag(suite),
    ) + line(0) + end_tag("testsuite"@));
}

/// A writer as [`render`] sets it up, about to put a tag at nesting depth
/// `level`. `breaks` says whether it breaks the line before that tag.
pub open spec fn at_level(w: Writer<Vec<u8>>, level: nat, breaks: bool) -> bool {
    &&& indenting(w)
    &&& !spaced_slash(w)
    &&& indent_char(w) == INDENT_CHAR as char
    &&& indent_size(w) == INDENT_SIZE
    &&& indent_width(w) == level * INDENT_SIZE as nat
    &&& breaks_line(w) == breaks
}

/// What a report function returns after one event: success if the XML writer
/// wrote the event, and else the writer's error as the cause.
pub fn checked(result: Result<(), std::io::Error>) -> (r: Result<(), ReportError>)
    ensures
        r == match result {
            Ok(()) => Ok::<(), ReportError>(()),
            Err(cause) => Err(ReportError::Write(cause)),
        },
{
    match result {
        Ok(()) => Ok(()),
        Err(cause) => Err(ReportError::Write(cause)),
    }
}

/// Writes a child of a `testcase` element that holds text and nothing else:
/// start tag, text and end tag, all on one line.
fn write_text_element(w: &mut Writer<Vec<u8>>, name: &str, tag: BytesStart<'static>, text: &str) -> (r:
    Result<(), ReportError>)
    requires
        at_level(*old(w), 2, true),
    ensures
        r is Ok,
        at_level(*final(w), 2, true),
        written(*final(w)) == written(*old(w)) + encode_utf8(
            line(2) + start_tag(tag_content(tag)) + escaped_text(text@) + end_tag(name@),
        ),
{
    let ghost base = written(*w);
    let ghost opened = line(2) + start_tag(tag_content(tag));
    checked(write_event(w, Markup::Start(tag)))?;
    checked(write_event(w, Markup::Text(text)))?;
    proof {
        lemma_encode_append(base, opened, escaped_text(text@));
    }
    checked(write_event(w, Markup::End(name)))?;
    proof {
        lemma_encode_append(base, opened + escaped_text(text@), end_tag(name@));
    }
    Ok(())
}

/// Writes the child of a `testcase` element that tells its outcome. A case
/// that passed has no such child: nothing is handed to the writer, which
/// stays as it is.
fn write_outcome(w: &mut Writer<Vec<u8>>, outcome: &Outcome) -> (r: Result<(), ReportError>)
    requires
        at_level(*old(w), 2, true),
    ensures
        r is Ok,
        outcome@ is Passed ==> *final(w) == *old(w),
        at_level(*final(w), 2, true),
        written(*final(w)) == written(*old(w)) + encode_utf8(outcome_text(outcome@)),
{
    match outcome {
        Outcome::Passed => {
            assert(written(*w) + encode_utf8(Seq::<char>::empty()) =~= written(*w));
            Ok(())
        },
        Outcome::Skipped => {
            let mut tag = new_tag("skipped");
            push_attribute(&mut tag, "message", SKIP_MESSAGE);
            checked(write_event(w, Markup::Empty(tag)))
        },
        Outcome::Failed { text } => {
            let mut tag = new_tag("failure");
            push_attribute(&mut tag, "message", FAILURE_MESSAGE);
            write_text_element(w, "failure", tag, text.as_str())
        },
    }
}

/// Writes one `testcase` element.
fn write_case(w: &mut Writer<Vec<u8>>, case: &TestCase) -> (r: Result<(), ReportError>)
    requires
        at_level(*old(w), 1, true),
    ensures
        r is Ok,
        at_level(*final(w), 1, true),
        written(*final(w)) == written(*old(w)) + encode_utf8(case_text(case@)),
{
    let ghost base = written(*w);
    let mut tag = new_tag("testcase");
    push_attribute(&mut tag, "name", case.name.as_str());
    push_attribute(&mut tag, "classname", case.classname.as_str());
    push_attribute(&mut tag, "time", case.time.as_str());
    assert(tag_content(tag) == case_tag(case@));
    let ghost opened = line(1) + start_tag(case_tag(case@));
    checked(write_event(w, Markup::Start(tag)))?;
    let ghost output = line(2) + start_tag("system-out"@) + escaped_text(case@.system_out)
        + end_tag("system-out"@);
    write_text_element(w, "system-out", new_tag("system-out"), case.system_out.as_str())?;
    proof {
        lemma_encode_append(base, opened, output);
    }
    write_outcome(w, &case.outcome)?;
    proof {
        lemma_encode_append(base, opened + output, outcome_text(case@.outcome));
    }
    checked(write_event(w, Markup::End("testcase")))?;
    proof {
        lemma_encode_append(
            base,
            opened + output + outcome_text(case@.outcome),
            line(1) + end_tag("testcase"@),
        );
        assert(opened + output + outcome_text(case@.outcome) + (line(1) + end_tag("testcase"@))
            =~= case_text(case@));
    }
    Ok(())
}

/// Writes the `testsuite` element with all its cases.
fn write_suite(w: &mut Writer<Vec<u8>>, suite: &TestSuite) -> (r: Result<(), ReportError>)
    requires
        at_level(*old(w), 0, true),
    ensures
        r is Ok,
        at_level(*final(w), 0, true),
        written(*final(w)) == written(*old(w)) + encode_utf8(element_text(suite@)),
{
    let ghost base = written(*w);
    let tests = decimal_string(suite.tests());
    let failures = decimal_string(suite.failures());
    let skipped = decimal_string(suite.skipped());
    let mut tag = new_tag("testsuite");
    push_attribute(&mut tag, "name", SUITE_NAME);
    push_attribute(&mut tag, "hostname", suite.hostname.as_str());
    push_attribute(&mut tag, "tests", tests.as_str());
    push_attribute(&mut tag, "failures", failures.as_str());
    push_attribute(&mut tag, "skipped", skipped.as_str());
    push_attribute(&mut tag, "time", suite.time.as_str());
    assert(tag_content(tag) == suite_tag(suite@));
    let ghost opened = line(0) + start_tag(suite_tag(suite@));
    checked(write_event(w, Markup::Start(tag)))?;
    let ghost cases = suite@.cases;
    let mut i: usize = 0;
    proof {
        assert(cases.take(0) =~= Seq::<CaseView>::empty());
        assert(cases_text(cases.take(0)) =~= Seq::<char>::empty());
        assert(opened + cases_text(cases.take(0)) =~= opened);
    }
    while i < suite.cases.len()
        invariant
            i <= suite.cases.len(),
            cases == suite@.cases,
            cases.len() == suite.cases.len(),
            at_level(*w, 1, true),
            written(*w) == base + encode_utf8(opened + cases_text(cases.take(i as int))),
        decreases suite.cases.len() - i,
    {
        let ghost done = opened + cases_text(cases.take(i as int));
        write_case(w, &suite.cases[i])?;
        proof {
            lemma_encode_append(base, done, case_text(cases[i as int]));
            cases.lemma_flat_map_take_append(|c: CaseView| case_text(c), i as int);
            assert(done + case_text(cases[i as int]) =~= opened + cases_text(
                cases.take(i as int + 1),
            ));
        }
        i += 1;
    }
    proof {
        assert(cases.take(i as int) =~= cases);
    }
    checked(write_event(w, Markup::End("testsuite")))?;
    proof {
        lemma_encode_append(base, opened + cases_text(cases), line(0) + end_tag("testsuite"@));
        assert(opened + cases_text(cases) + (line(0) + end_tag("testsuite"@)) =~= element_text(
            suite@,
        ));
    }
    Ok(())
}

/// The XML document for `suite`, as UTF-8 bytes. The document is written
/// into memory, so the call always succeeds.
pub fn render(suite: &TestSuite) -> (r: Result<Vec<u8>, ReportError>)
    ensures
        r matches Ok(bytes) && bytes@ == encode_utf8(suite_text(suite@)),
{
    let mut w = open_writer(Vec::new(), INDENT_CHAR, INDENT_SIZE);
    checked(
        write_event(
            &mut w,
            Markup::Declaration { version: XML_VERSION, encoding: XML_ENCODING },
        ),
    )?;
    let ghost head = declaration(XML_VERSION@, XML_ENCODING@);
    assert(written(w) =~= Seq::<u8>::empty() + encode_utf8(head)) by {
        assert(tag_lead(false, INDENT_CHAR as char, 0) + head =~= head);
    }
    write_suite(&mut w, suite)?;
    proof {
        lemma_encode_append(Seq::<u8>::empty(), head, element_text(suite@));
        assert(Seq::<u8>::empty() + encode_utf8(suite_text(suite@)) =~= encode_utf8(
            suite_text(suite@),
        ));
    }
    Ok(close_writer(w))
}

} // verus!
