use vstd::prelude::*;

use crate::execution::measurement::FailedTest;
use crate::render::{dec_digits, u32_to_string};
use crate::syntax::error::{reason_message, ErrorReason as SyntaxErrorReason};
use crate::syntax::expression::{Expr, ParsedExpr, Span};

verus! {

/// A remark attached to an error report.
#[derive(Clone, Copy, Debug)]
pub enum ErrorNote {
    Note(&'static str),
    Help(&'static str),
}

/// A labelled source span of an error report. Higher `priority` draws the
/// label above overlapping ones; `order` sorts labels on one line.
#[derive(Debug)]
pub struct Label {
    pub span: Span,
    pub message: String,
    pub priority: u32,
    pub order: u32,
}

/// Why the run of a script failed.
#[derive(Debug)]
pub enum ErrorReason {
    SyntaxError(SyntaxErrorReason),
    TestFailure { expression: ParsedExpr, test: FailedTest },
    IOError { expression: ParsedExpr, detail: String },
}

/// An error of the interpreter or of the transaction engine, with the
/// remarks to print under its report.
#[derive(Debug)]
pub struct Error {
    pub reason: ErrorReason,
    pub notes: Vec<ErrorNote>,
}

impl Error {
    /// An error of the underlying byte exchange, tagged to the expression
    /// that was being executed.
    pub fn from_io_error(expression: ParsedExpr, detail: String) -> (r: Self)
        ensures
            r.reason == (ErrorReason::IOError { expression, detail }),
            r.notes@ == Seq::<ErrorNote>::empty(),
    {
        Self { reason: ErrorReason::IOError { expression, detail }, notes: Vec::new() }
    }

    /// A measurement test that failed for good, tagged to the expression
    /// that demanded it.
    pub fn from_failed_test(expression: ParsedExpr, test: FailedTest) -> (r: Self)
        ensures
            r.reason == (ErrorReason::TestFailure { expression, test }),
            r.notes@ == Seq::<ErrorNote>::empty(),
    {
        Self { reason: ErrorReason::TestFailure { expression, test }, notes: Vec::new() }
    }

    pub fn with_note(self, note: ErrorNote) -> (r: Self)
        ensures
            r.reason == self.reason,
            r.notes@ == self.notes@.push(note),
    {
        let mut this = self;
        this.notes.push(note);
        this
    }

    pub fn reason(&self) -> (r: &ErrorReason)
        ensures
            r == &self.reason,
    {
        &self.reason
    }

    pub fn notes(&self) -> (r: &Vec<ErrorNote>)
        ensures
            r == &self.notes,
    {
        &self.notes
    }
}

impl From<crate::syntax::error::Error> for Error {
    /// Carry a parse error over into a run-time error.
    fn from(error: crate::syntax::error::Error) -> (r: Self) {
        Self { reason: ErrorReason::SyntaxError(error.reason), notes: error.notes }
    }
}

impl vstd::std_specs::convert::FromSpecImpl<crate::syntax::error::Error> for Error {
    open spec fn obeys_from_spec() -> bool {
        true
    }

    open spec fn from_spec(error: crate::syntax::error::Error) -> Error {
        Error { reason: ErrorReason::SyntaxError(error.reason), notes: error.notes }
    }
}

/// The spans that a failed test's labels point at: the `min` and `max`
/// argument of a test command, or the whole expression of any other node.
pub open spec fn test_range_spans(e: ParsedExpr) -> (Span, Span) {
    match e.expr {
        Expr::TCUTest { min, max, .. } => ((*min).span, (*max).span),
        Expr::PrinterTest { min, max, .. } => ((*min).span, (*max).span),
        Expr::USBPrinterTest { min, max, .. } => ((*min).span, (*max).span),
        _ => (e.span, e.span),
    }
}

/// The message of the label on a violated maximum bound.
pub open spec fn max_violation_message(max: u32, measured: u32) -> Seq<char> {
    "Expected maximum value of "@ + dec_digits(max as nat) + " but measured "@ + dec_digits(
        measured as nat,
    )
}

/// The message of the label on a violated minimum bound.
pub open spec fn min_violation_message(min: u32, measured: u32) -> Seq<char> {
    "Expected minimum value of "@ + dec_digits(min as nat) + " but measured "@ + dec_digits(
        measured as nat,
    )
}

impl ErrorReason {
    /// The one-line message of the report.
    pub fn message(&self) -> (r: String)
        ensures
            *self matches ErrorReason::SyntaxError(reason) ==> r@ == "Syntax error - "@
                + reason_message(reason),
            *self matches ErrorReason::TestFailure { test, .. } ==> r@ == "Test failed - "@
                + test.message@,
            *self matches ErrorReason::IOError { detail, .. } ==> r@ == "IO error - "@ + detail@,
    {
        match self {
            ErrorReason::SyntaxError(reason) => {
                let mut s = String::from_str("Syntax error - ");
                s.append(reason.message());
                s
            },
            ErrorReason::TestFailure { test, .. } => {
                let mut s = String::from_str("Test failed - ");
                s.append(test.message.as_str());
                s
            },
            ErrorReason::IOError { detail, .. } => {
                let mut s = String::from_str("IO error - ");
                s.append(detail.as_str());
                s
            },
        }
    }

    /// The labelled spans of the report. A failed test labels the bound
    /// that the measured value violated; an exchange error labels the
    /// command that was being executed.
    pub fn labels(&self) -> (r: Vec<Label>)
        ensures
            *self matches ErrorReason::SyntaxError(reason) ==> crate::syntax::error::labels_match(
                reason,
                r@,
            ),
            *self matches ErrorReason::TestFailure { expression, test } ==> ({
                let mn_span = test_range_spans(expression).0;
                let mx_span = test_range_spans(expression).1;
                let over = test.measurement > test.expected_max;
                let under = test.measurement < test.expected_min;
                &&& r@.len() == (if over { 1int } else { 0int }) + (if under { 1int } else { 0int })
                &&& over ==> r@[0].span == mx_span && r@[0].message@ == max_violation_message(
                    test.expected_max,
                    test.measurement,
                ) && r@[0].priority == 0 && r@[0].order == 1
                &&& under ==> {
                    let at = if over { 1int } else { 0int };
                    r@[at].span == mn_span && r@[at].message@ == min_violation_message(
                        test.expected_min,
                        test.measurement,
                    ) && r@[at].priority == 0 && r@[at].order == 0
                }
            }),
            *self matches ErrorReason::IOError { expression, .. } ==> r@.len() == 1 && r@[0].span
                == expression.span && r@[0].message@ == "When executing this command"@
                && r@[0].priority == 0 && r@[0].order == 0,
    {
        match self {
            ErrorReason::SyntaxError(reason) => reason.labels(),
            ErrorReason::TestFailure { expression, test } => {
                let (min_span, max_span) = match expression.expression() {
                    Expr::TCUTest { min, max, .. } => (min.span(), max.span()),
                    Expr::PrinterTest { min, max, .. } => (min.span(), max.span()),
                    Expr::USBPrinterTest { min, max, .. } => (min.span(), max.span()),
                    _ => (expression.span(), expression.span()),
                };
                let mut labels: Vec<Label> = Vec::new();
                if test.measurement > test.expected_max {
                    let mut message = String::from_str("Expected maximum value of ");
                    let max_text = u32_to_string(test.expected_max);
                    message.append(max_text.as_str());
                    message.append(" but measured ");
                    let measured_text = u32_to_string(test.measurement);
                    message.append(measured_text.as_str());
                    labels.push(Label { span: max_span, message, priority: 0, order: 1 });
                }
                if test.measurement < test.expected_min {
                    let mut message = String::from_str("Expected minimum value of ");
                    let min_text = u32_to_string(test.expected_min);
                    message.append(min_text.as_str());
                    message.append(" but measured ");
                    let measured_text = u32_to_string(test.measurement);
                    message.append(measured_text.as_str());
                    labels.push(Label { span: min_span, message, priority: 0, order: 0 });
                }
                labels
            },
            ErrorReason::IOError { expression, .. } => {
                let mut labels: Vec<Label> = Vec::new();
                labels.push(
                    Label {
                        span: expression.span(),
                        message: String::from_str("When executing this command"),
                        priority: 0,
                        order: 0,
                    },
                );
                labels
            },
        }
    }
}

} // verus!
