//! The report as data: step results as they come in, and the suite of test
//! cases that is written out.
use crate::chars::{filter_invalid_chars, filtered};
use crate::text::same_text;
use vstd::prelude::*;

verus! {

/// The error message that marks a step as skipped because something it
/// depends on did not succeed.
pub const SKIP_MESSAGE: &'static str = "Dependency Not Met";

/// The outcome of one executed step.
#[derive(Debug, Clone)]
pub struct StepResult {
    /// The step's name.
    pub name: String,
    /// What kind of step it is, if that is known.
    pub description: Option<String>,
    /// How long the step ran, in seconds, in decimal notation.
    pub seconds: String,
    /// What the step printed.
    pub output: String,
    /// Whether the step succeeded.
    pub pass: bool,
    /// Why the step did not succeed.
    pub error: Option<String>,
}

/// A [`StepResult`] as a mathematical value.
pub struct StepView {
    pub name: Seq<char>,
    pub description: Option<Seq<char>>,
    pub seconds: Seq<char>,
    pub output: Seq<char>,
    pub pass: bool,
    pub error: Option<Seq<char>>,
}

impl View for StepResult {
    type V = StepView;

    open spec fn view(&self) -> StepView {
        StepView {
            name: self.name@,
            description: match self.description {
                Some(d) => Some(d@),
                None => None,
            },
            seconds: self.seconds@,
            output: self.output@,
            pass: self.pass,
            error: match self.error {
                Some(e) => Some(e@),
                None => None,
            },
        }
    }
}

/// How a test case ended.
#[derive(Debug, Clone)]
pub enum Outcome {
    /// The step succeeded.
    Passed,
    /// The step was not attempted because a step it depends on failed.
    Skipped,
    /// The step failed; `text` says why.
    Failed { text: String },
}

/// An [`Outcome`] as a mathematical value.
pub enum OutcomeView {
    Passed,
    Skipped,
    Failed { text: Seq<char> },
}

impl View for Outcome {
    type V = OutcomeView;

    open spec fn view(&self) -> OutcomeView {
        match self {
            Outcome::Passed => OutcomeView::Passed,
            Outcome::Skipped => OutcomeView::Skipped,
            Outcome::Failed { text } => OutcomeView::Failed { text: text@ },
        }
    }
}

/// One `testcase` element of the report.
#[derive(Debug, Clone)]
pub struct TestCase {
    /// The `name` attribute.
    pub name: String,
    /// The `classname` attribute.
    pub classname: String,
    /// The `time` attribute: seconds in decimal notation.
    pub time: String,
    /// The text of the `system-out` child.
    pub system_out: String,
    /// Which of the `skipped` and `failure` children the case has, if any.
    pub outcome: Outcome,
}

/// A [`TestCase`] as a mathematical value.
pub struct CaseView {
    pub name: Seq<char>,
    pub classname: Seq<char>,
    pub time: Seq<char>,
    pub system_out: Seq<char>,
    pub outcome: OutcomeView,
}

impl View for TestCase {
    type V = CaseView;

    open spec fn view(&self) -> CaseView {
        CaseView {
            name: self.name@,
            classname: self.classname@,
            time: self.time@,
            system_out: self.system_out@,
            outcome: self.outcome@,
        }
    }
}

/// The `testsuite` element of the report. Its counts are not stored: they
/// are what its cases add up to.
#[derive(Debug, Clone)]
pub struct TestSuite {
    /// The `hostname` attribute.
    pub hostname: String,
    /// The `time` attribute: seconds in decimal notation.
    pub time: String,
    /// The `testcase` children, in document order.
    pub cases: Vec<TestCase>,
}

/// A [`TestSuite`] as a mathematical value.
pub struct SuiteView {
    pub hostname: Seq<char>,
    pub time: Seq<char>,
    pub cases: Seq<CaseView>,
}

impl View for TestSuite {
    type V = SuiteView;

    open spec fn view(&self) -> SuiteView {
        SuiteView { hostname: self.hostname@, time: self.time@, cases: case_views(self.cases@) }
    }
}

/// The mathematical values of a sequence of step results.
pub open spec fn step_views(results: Seq<StepResult>) -> Seq<StepView> {
    results.map_values(|r: StepResult| r@)
}

/// The mathematical values of a sequence of test cases.
pub open spec fn case_views(cases: Seq<TestCase>) -> Seq<CaseView> {
    cases.map_values(|c: TestCase| c@)
}

/// The error message of a step; a step without one has the empty message.
pub open spec fn message_of(r: StepView) -> Seq<char> {
    match r.error {
        Some(e) => e,
        None => Seq::empty(),
    }
}

/// A step counts as skipped if it did not pass and its message is
/// [`SKIP_MESSAGE`].
pub open spec fn is_skipped(r: StepView) -> bool {
    !r.pass && message_of(r) == SKIP_MESSAGE@
}

/// A step counts as failed if it did not pass and was not skipped.
pub open spec fn is_failure(r: StepView) -> bool {
    !r.pass && message_of(r) != SKIP_MESSAGE@
}

/// How the test case of a step ends. The text of a failure is the step's
/// message without the characters that XML forbids.
pub open spec fn outcome_of(r: StepView) -> OutcomeView {
    if r.pass {
        OutcomeView::Passed
    } else if message_of(r) == SKIP_MESSAGE@ {
        OutcomeView::Skipped
    } else {
        OutcomeView::Failed { text: filtered(message_of(r)) }
    }
}

/// The test case of a step: name and time as they are, the description as
/// class name (empty if there is none), and the output without the characters
/// that XML forbids.
pub open spec fn case_of(r: StepView) -> CaseView {
    CaseView {
        name: r.name,
        classname: match r.description {
            Some(d) => d,
            None => Seq::empty(),
        },
        time: r.seconds,
        system_out: filtered(r.output),
        outcome: outcome_of(r),
    }
}

/// The suite of a list of steps: one case per step, in the same order.
pub open spec fn suite_of(results: Seq<StepView>, time: Seq<char>, hostname: Seq<char>) -> SuiteView {
    SuiteView { hostname, time, cases: results.map_values(|r: StepView| case_of(r)) }
}

/// The cases that were skipped.
pub open spec fn skipped_cases(cases: Seq<CaseView>) -> Seq<CaseView> {
    cases.filter(|c: CaseView| c.outcome is Skipped)
}

/// The cases that failed.
pub open spec fn failed_cases(cases: Seq<CaseView>) -> Seq<CaseView> {
    cases.filter(|c: CaseView| c.outcome is Failed)
}

impl SuiteView {
    /// The `tests` attribute: the number of cases.
    pub open spec fn tests(self) -> nat {
        self.cases.len()
    }

    /// The `skipped` attribute: the number of skipped cases.
    pub open spec fn skipped(self) -> nat {
        skipped_cases(self.cases).len()
    }

    /// The `failures` attribute: the number of failed cases.
    pub open spec fn failures(self) -> nat {
        failed_cases(self.cases).len()
    }
}

impl Outcome {
    /// Classifies a step as passed, skipped or failed.
    pub fn of(result: &StepResult) -> (outcome: Outcome)
        ensures
            outcome@ == outcome_of(result@),
    {
        if result.pass {
            return Outcome::Passed;
        }
        proof {
            reveal_strlit("");
            assert(""@ =~= Seq::<char>::empty());
        }
        let message: &str = match &result.error {
            Some(e) => e.as_str(),
            None => "",
        };
        if same_text(message, SKIP_MESSAGE) {
            Outcome::Skipped
        } else {
            Outcome::Failed { text: filter_invalid_chars(message) }
        }
    }
}

impl TestCase {
    /// The test case that reports one step.
    pub fn from_result(result: &StepResult) -> (case: TestCase)
        ensures
            case@ == case_of(result@),
    {
        let classname = match &result.description {
            Some(d) => d.clone(),
            None => String::new(),
        };
        TestCase {
            name: result.name.clone(),
            classname,
            time: result.seconds.clone(),
            system_out: filter_invalid_chars(result.output.as_str()),
            outcome: Outcome::of(result),
        }
    }
}

/// Counting one more case: the number of skipped cases grows by one if the
/// case was skipped, the number of failed cases if it failed.
pub proof fn lemma_count_push(cases: Seq<CaseView>, case: CaseView)
    ensures
        skipped_cases(cases.push(case)).len() == skipped_cases(cases).len() + if case.outcome is Skipped {
            1int
        } else {
            0int
        },
        failed_cases(cases.push(case)).len() == failed_cases(cases).len() + if case.outcome is Failed {
            1int
        } else {
            0int
        },
{
    reveal(Seq::filter);
    assert(cases.push(case).drop_last() =~= cases);
}

/// Skipped and failed cases together are never more than all cases.
pub proof fn lemma_counts_bounded(cases: Seq<CaseView>)
    ensures
        skipped_cases(cases).len() + failed_cases(cases).len() <= cases.len(),
    decreases cases.len(),
{
    reveal(Seq::filter);
    if cases.len() > 0 {
        lemma_counts_bounded(cases.drop_last());
        assert(cases.drop_last().push(cases.last()) =~= cases);
        lemma_count_push(cases.drop_last(), cases.last());
    }
}

/// The steps that count as skipped.
pub open spec fn skipped_steps(results: Seq<StepView>) -> Seq<StepView> {
    results.filter(|r: StepView| is_skipped(r))
}

/// The steps that count as failed.
pub open spec fn failed_steps(results: Seq<StepView>) -> Seq<StepView> {
    results.filter(|r: StepView| is_failure(r))
}

/// The steps that did not pass.
pub open spec fn unpassed_steps(results: Seq<StepView>) -> Seq<StepView> {
    results.filter(|r: StepView| !r.pass)
}

/// A suite has one test per step, and its skipped and failed cases together
/// are never more than its tests.
pub proof fn lemma_suite_counts(results: Seq<StepView>, time: Seq<char>, hostname: Seq<char>)
    ensures
        suite_of(results, time, hostname).tests() == results.len(),
        suite_of(results, time, hostname).failures() + suite_of(results, time, hostname).skipped()
            <= suite_of(results, time, hostname).tests(),
{
    lemma_counts_bounded(suite_of(results, time, hostname).cases);
}

/// A suite counts as skipped the steps that did not pass with the message
/// [`SKIP_MESSAGE`], and as failures the other steps that did not pass: the
/// failures are the steps that did not pass less the skipped ones.
pub proof fn lemma_suite_counts_steps(results: Seq<StepView>, time: Seq<char>, hostname: Seq<char>)
    ensures
        suite_of(results, time, hostname).skipped() == skipped_steps(results).len(),
        suite_of(results, time, hostname).failures() == failed_steps(results).len(),
        suite_of(results, time, hostname).failures() == unpassed_steps(results).len()
            - skipped_steps(results).len(),
    decreases results.len(),
{
    reveal(Seq::filter);
    let cases = suite_of(results, time, hostname).cases;
    if results.len() > 0 {
        let front = results.drop_last();
        let last = results.last();
        lemma_suite_counts_steps(front, time, hostname);
        assert(cases.drop_last() =~= suite_of(front, time, hostname).cases);
        assert(cases.last() == case_of(last));
        assert(cases.drop_last().push(cases.last()) =~= cases);
        lemma_count_push(cases.drop_last(), cases.last());
    } else {
        assert(cases =~= Seq::<CaseView>::empty());
    }
}

/// The empty list of steps gives a suite without cases, whose three counts
/// are zero.
pub proof fn lemma_empty_suite(time: Seq<char>, hostname: Seq<char>)
    ensures
        suite_of(Seq::empty(), time, hostname).cases == Seq::<CaseView>::empty(),
        suite_of(Seq::empty(), time, hostname).tests() == 0,
        suite_of(Seq::empty(), time, hostname).failures() == 0,
        suite_of(Seq::empty(), time, hostname).skipped() == 0,
{
    reveal(Seq::filter);
    assert(suite_of(Seq::empty(), time, hostname).cases =~= Seq::<CaseView>::empty());
}

/// A step that passed gives a case that passed: it adds to neither count.
pub proof fn lemma_passed_step(result: StepView, cases: Seq<CaseView>)
    requires
        result.pass,
    ensures
        case_of(result).outcome is Passed,
        skipped_cases(cases.push(case_of(result))).len() == skipped_cases(cases).len(),
        failed_cases(cases.push(case_of(result))).len() == failed_cases(cases).len(),
{
    lemma_count_push(cases, case_of(result));
}

/// A step that did not pass and whose message is [`SKIP_MESSAGE`] gives a
/// skipped case: it adds one to the skipped cases and nothing to the failed
/// ones.
pub proof fn lemma_skipped_step(result: StepView, cases: Seq<CaseView>)
    requires
        !result.pass,
        result.error == Some(SKIP_MESSAGE@),
    ensures
        case_of(result).outcome is Skipped,
        skipped_cases(cases.push(case_of(result))).len() == skipped_cases(cases).len() + 1,
        failed_cases(cases.push(case_of(result))).len() == failed_cases(cases).len(),
{
    lemma_count_push(cases, case_of(result));
}

/// A step that did not pass and has another message, or none, gives a failed
/// case whose text is the filtered message: it adds one to the failed cases
/// and nothing to the skipped ones.
pub proof fn lemma_failed_step(result: StepView, cases: Seq<CaseView>)
    requires
        !result.pass,
        result.error != Some(SKIP_MESSAGE@),
    ensures
        case_of(result).outcome == (OutcomeView::Failed { text: filtered(message_of(result)) }),
        failed_cases(cases.push(case_of(result))).len() == failed_cases(cases).len() + 1,
        skipped_cases(cases.push(case_of(result))).len() == skipped_cases(cases).len(),
{
    reveal_strlit("Dependency Not Met");
    assert(SKIP_MESSAGE@.len() > 0);
    lemma_count_push(cases, case_of(result));
}

impl TestSuite {
    /// The suite that reports `results`, one case per step and in the same
    /// order, with the given total time and host name.
    pub fn from_results(results: &[StepResult], time: &str, hostname: &str) -> (suite: TestSuite)
        ensures
            suite@ == suite_of(step_views(results@), time@, hostname@),
            suite@.tests() == results@.len(),
            suite@.failures() + suite@.skipped() <= suite@.tests(),
    {
        let mut cases: Vec<TestCase> = Vec::new();
        let mut i: usize = 0;
        while i < results.len()
            invariant
                i <= results.len(),
                cases.len() == i,
                forall|j: int| 0 <= j < i ==> (#[trigger] cases@[j])@ == case_of(results@[j]@),
            decreases results.len() - i,
        {
            cases.push(TestCase::from_result(&results[i]));
            i += 1;
        }
        let suite = TestSuite { hostname: hostname.to_owned(), time: time.to_owned(), cases };
        proof {
            assert(suite@.cases =~= suite_of(step_views(results@), time@, hostname@).cases);
            lemma_suite_counts(step_views(results@), time@, hostname@);
        }
        suite
    }

    /// The number of cases.
    pub fn tests(&self) -> (n: usize)
        ensures
            n == self@.tests(),
    {
        self.cases.len()
    }

    /// The number of skipped cases.
    pub fn skipped(&self) -> (n: usize)
        ensures
            n == self@.skipped(),
    {
        let mut n: usize = 0;
        let mut i: usize = 0;
        assert(case_views(self.cases@).take(0) =~= Seq::<CaseView>::empty());
        assert(skipped_cases(Seq::<CaseView>::empty()).len() == 0) by {
            reveal(Seq::filter);
        }
        while i < self.cases.len()
            invariant
                i <= self.cases.len(),
                n == skipped_cases(case_views(self.cases@).take(i as int)).len(),
                n <= i,
            decreases self.cases.len() - i,
        {
            proof {
                let all = case_views(self.cases@);
                assert(all.take(i + 1) =~= all.take(i as int).push(self.cases@[i as int]@));
                lemma_count_push(all.take(i as int), self.cases@[i as int]@);
            }
            match &self.cases[i].outcome {
                Outcome::Skipped => {
                    n += 1;
                },
                _ => {},
            }
            i += 1;
        }
        assert(case_views(self.cases@).take(i as int) =~= case_views(self.cases@));
        n
    }

    /// The number of failed cases.
    pub fn failures(&self) -> (n: usize)
        ensures
            n == self@.failures(),
    {
        let mut n: usize = 0;
        let mut i: usize = 0;
        assert(case_views(self.cases@).take(0) =~= Seq::<CaseView>::empty());
        assert(failed_cases(Seq::<CaseView>::empty()).len() == 0) by {
            reveal(Seq::filter);
        }
        while i < self.cases.len()
            invariant
                i <= self.cases.len(),
                n == failed_cases(case_views(self.cases@).take(i as int)).len(),
                n <= i,
            decreases self.cases.len() - i,
        {
            proof {
                let all = case_views(self.cases@);
                assert(all.take(i + 1) =~= all.take(i as int).push(self.cases@[i as int]@));
                lemma_count_push(all.take(i as int), self.cases@[i as int]@);
            }
            match &self.cases[i].outcome {
                Outcome::Failed { .. } => {
                    n += 1;
                },
                _ => {},
            }
            i += 1;
        }
        assert(case_views(self.cases@).take(i as int) =~= case_views(self.cases@));
        n
    }
}

} // verus!
