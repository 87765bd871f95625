//! [`TestResult`] and [`ResultPrinter`]: the three-valued outcome of a
//! check and the builder gathering what a presenter needs to report it.

use vstd::prelude::*;

verus! {

/// Width of the widest status word, `SKIPPED`.
pub const WIDTH: usize = 7;

/// The indentation used when none is asked for.
pub const DEFAULT_INDENT: usize = 0;

/// The outcome of one check: passed, failed, or skipped (not applicable).
#[derive(Debug, Clone, Copy, PartialEq, Eq, Structural)]
pub enum TestResult {
    Skipped,
    Passed,
    Failed,
}

/// The outcome a boolean stands for: pass on true, fail on false.
pub open spec fn spec_result_of_bool(b: bool) -> TestResult {
    if b {
        TestResult::Passed
    } else {
        TestResult::Failed
    }
}

/// The outcome a three-valued check result stands for: skip on `None`.
pub open spec fn spec_result_of_check(r: Option<bool>) -> TestResult {
    match r {
        Some(b) => spec_result_of_bool(b),
        None => TestResult::Skipped,
    }
}

impl From<bool> for TestResult {
    /// Pass on true, fail on false.
    fn from(b: bool) -> (r: Self) {
        if b {
            TestResult::Passed
        } else {
            TestResult::Failed
        }
    }
}

impl vstd::std_specs::convert::FromSpecImpl<bool> for TestResult {
    open spec fn obeys_from_spec() -> bool {
        true
    }

    open spec fn from_spec(b: bool) -> Self {
        spec_result_of_bool(b)
    }
}

impl From<Option<bool>> for TestResult {
    /// Pass or fail on a decided outcome, skip on an undecided one.
    fn from(bool_maybe: Option<bool>) -> (r: Self) {
        match bool_maybe {
            Some(b) => {
                if b {
                    TestResult::Passed
                } else {
                    TestResult::Failed
                }
            },
            None => TestResult::Skipped,
        }
    }
}

impl vstd::std_specs::convert::FromSpecImpl<Option<bool>> for TestResult {
    open spec fn obeys_from_spec() -> bool {
        true
    }

    open spec fn from_spec(bool_maybe: Option<bool>) -> Self {
        spec_result_of_check(bool_maybe)
    }
}

/// Gathers a title, a result and the optional messages shown in place of
/// the title, together with the layout switches a presenter honours.
#[derive(Debug)]
pub struct ResultPrinter {
    pub title: String,
    pub result: TestResult,
    pub message_passed: Option<String>,
    pub message_failed: Option<String>,
    pub message_skipped: Option<String>,
    pub color: bool,
    pub indent: usize,
}

impl ResultPrinter {
    /// A printer for the given title and result, with no messages, no
    /// indentation and coloring switched on.
    pub fn new(title: &str, result: TestResult) -> (r: Self)
        ensures
            r.title@ == title@,
            r.result == result,
            r.message_passed is None,
            r.message_failed is None,
            r.message_skipped is None,
            r.color,
            r.indent == DEFAULT_INDENT,
    {
        Self {
            title: String::from_str(title),
            result,
            message_passed: None,
            message_failed: None,
            message_skipped: None,
            indent: DEFAULT_INDENT,
            color: true,
        }
    }

    /// The same printer with the message shown on a pass.
    pub fn with_message_passed(self, msg: &str) -> (r: Self)
        ensures
            r == (Self { message_passed: r.message_passed, ..self }),
            r.message_passed matches Some(m) && m@ == msg@,
    {
        Self { message_passed: Some(String::from_str(msg)), ..self }
    }

    /// The same printer with the message shown on a failure.
    pub fn with_message_failed(self, msg: &str) -> (r: Self)
        ensures
            r == (Self { message_failed: r.message_failed, ..self }),
            r.message_failed matches Some(m) && m@ == msg@,
    {
        Self { message_failed: Some(String::from_str(msg)), ..self }
    }

    /// The same printer with the given indentation.
    pub fn with_indent(self, indent: usize) -> (r: Self)
        ensures
            r == (Self { indent, ..self }),
    {
        Self { indent, ..self }
    }

    /// The same printer with coloring switched on or off.
    pub fn with_color(self, color: bool) -> (r: Self)
        ensures
            r == (Self { color, ..self }),
    {
        Self { color, ..self }
    }
}

} // verus!
