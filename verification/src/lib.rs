//! JUnit-style XML reports for executed test steps.
//!
//! A report is built in two stages. The first turns a list of step results
//! into a [`report::TestSuite`]: it classifies every step as passed, skipped
//! or failed and strips the characters that XML 1.0 forbids from captured
//! text. The second hands that suite, event by event, to an XML writer and
//! returns the bytes of the document.
use crate::host::resolve_hostname;
use crate::report::{step_views, suite_of, StepResult, StepView, TestSuite};
use crate::writer::{render, suite_text, ReportError};
use vstd::prelude::*;
use vstd::utf8::encode_utf8;

pub mod chars;
pub mod host;
pub mod markup;
pub mod report;
pub mod text;
pub mod writer;
pub mod xml;

verus! {

/// The report on `results` as a document: the UTF-8 encoding of the text of
/// their suite.
pub open spec fn document(results: Seq<StepView>, time: Seq<char>, hostname: Seq<char>) -> Seq<u8> {
    encode_utf8(suite_text(suite_of(results, time, hostname)))
}

/// The JUnit document that reports `results`, in their order, for the host
/// `hostname` and with `time` as the total time in seconds.
pub fn junit_document(results: &[StepResult], time: &str, hostname: &str) -> (r: Result<
    Vec<u8>,
    ReportError,
>)
    ensures
        r matches Ok(bytes) && bytes@ == document(step_views(results@), time@, hostname@),
{
    let suite = TestSuite::from_results(results, time, hostname);
    render(&suite)
}

/// The JUnit document that reports `results`, in their order, with `time` as
/// the total time in seconds. Without a `hostname` the report carries the
/// name that the operating system gives for this machine, and an empty name
/// where it gives none.
pub fn create_junit(results: &[StepResult], time: &str, hostname: Option<&str>) -> (r: Result<
    Vec<u8>,
    ReportError,
>)
    ensures
        r matches Ok(bytes) && exists|host: Seq<char>|
            {
                &&& hostname matches Some(name) ==> host == name@
                &&& bytes@ == #[trigger] document(step_views(results@), time@, host)
            },
{
    let host = resolve_hostname(hostname);
    junit_document(results, time, host.as_str())
}

} // verus!
