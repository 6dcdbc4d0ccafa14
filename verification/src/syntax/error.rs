use vstd::prelude::*;

pub use crate::error::ErrorNote;
use crate::error::Label;
use crate::render::{
    char_to_string, dec_digits, expected_message, expected_message_exec, push_char, quoted,
    u32_to_string,
};
use super::expression::{kind_name, ExprKind, Span};

verus! {

/// Why a script failed to parse.
#[derive(Debug)]
pub enum ErrorReason {
    /// A character that no production of the grammar accepts here.
    Unexpected { span: Span, expected: Vec<Option<char>>, found: Option<char> },
    /// A line that does not begin with a known command, a value or a
    /// comment.
    UnrecognisedCommand { span: Span },
    /// An argument was of the wrong type.
    ArgType { span: Span, expected: Vec<ExprKind>, found: ExprKind },
    /// An argument value beyond limits.
    ArgValue { span: Span, value: u32, limits: (u32, u32) },
}

/// A parse error, with the remarks to print under its report.
#[derive(Debug)]
pub struct Error {
    pub reason: ErrorReason,
    pub notes: Vec<ErrorNote>,
}

impl Error {
    pub fn unrecognised_command(span: Span) -> (r: Self)
        ensures
            r.reason == (ErrorReason::UnrecognisedCommand { span }),
            r.notes@ == Seq::<ErrorNote>::empty(),
    {
        Self { reason: ErrorReason::UnrecognisedCommand { span }, notes: Vec::new() }
    }

    /// A parse stumbled over a character: it `found` one (or the end of
    /// input) where it `expected` others.
    pub fn expected_input_found(span: Span, expected: Vec<Option<char>>, found: Option<char>) -> (r:
        Self)
        ensures
            r.reason == (ErrorReason::Unexpected { span, expected, found }),
            r.notes@ == Seq::<ErrorNote>::empty(),
    {
        Self { reason: ErrorReason::Unexpected { span, expected, found }, notes: Vec::new() }
    }

    /// An argument was of the wrong type: one of the `expected` kinds was
    /// required, the `found` kind was given.
    pub fn argument_type(span: Span, expected: Vec<ExprKind>, found: ExprKind) -> (r: Self)
        ensures
            r.reason == (ErrorReason::ArgType { span, expected, found }),
            r.notes@ == Seq::<ErrorNote>::empty(),
    {
        Self { reason: ErrorReason::ArgType { span, expected, found }, notes: Vec::new() }
    }

    /// An argument's value lies outside of `limits`.
    pub fn argument_value_size(span: Span, value: u32, limits: (u32, u32)) -> (r: Self)
        requires
            limits.0 <= limits.1,
        ensures
            r.reason == (ErrorReason::ArgValue { span, value, limits }),
            r.notes@ == Seq::<ErrorNote>::empty(),
    {
        Self { reason: ErrorReason::ArgValue { span, value, limits }, notes: Vec::new() }
    }

    pub fn with_note(self, note: ErrorNote) -> (r: Self)
        ensures
            r.reason == self.reason,
            r.notes@ == self.notes@.push(note),
    {
        let mut this = self;
        this.notes.push(note);
        this
    }

    pub fn reason(&self) -> (r: &ErrorReason)
        ensures
            r == &self.reason,
    {
        &self.reason
    }

    pub fn notes(&self) -> (r: &Vec<ErrorNote>)
        ensures
            r == &self.notes,
    {
        &self.notes
    }
}

/// The one-line message of each parse error report.
pub open spec fn reason_message(reason: ErrorReason) -> Seq<char> {
    match reason {
        ErrorReason::Unexpected { .. } => "Unexpected token"@,
        ErrorReason::UnrecognisedCommand { .. } => "Unrecognised command found"@,
        ErrorReason::ArgType { .. } => "Invalid argument type"@,
        ErrorReason::ArgValue { .. } => "Argument value exceeds limits"@,
    }
}

/// How an expected or found character is named in a report.
pub open spec fn opt_char_text(c: Option<char>) -> Seq<char> {
    match c {
        None => "End of input"@,
        Some(ch) => seq![ch],
    }
}

/// One labelled span of a report carries exactly these fields.
pub open spec fn label_is(l: Label, span: Span, message: Seq<char>, priority: u32, order: u32) -> bool {
    l.span == span && l.message@ == message && l.priority == priority && l.order == order
}

/// The labels of each parse error report: what was expected and found, the
/// unrecognised command, or the value and its limits.
pub open spec fn labels_match(reason: ErrorReason, ls: Seq<Label>) -> bool {
    match reason {
        ErrorReason::Unexpected { span, expected, found } => ls.len() == 2 && label_is(
            ls[0],
            span,
            expected_message(expected@.map_values(|c: Option<char>| opt_char_text(c))),
            10,
            0,
        ) && label_is(ls[1], span, "Found "@ + quoted(opt_char_text(found)), 9, 0),
        ErrorReason::UnrecognisedCommand { span } => ls.len() == 1 && label_is(
            ls[0],
            span,
            "Unrecognised command"@,
            10,
            0,
        ),
        ErrorReason::ArgType { span, expected, found } => ls.len() == 2 && label_is(
            ls[0],
            span,
            expected_message(expected@.map_values(|k: ExprKind| kind_name(k))),
            10,
            0,
        ) && label_is(ls[1], span, "Found "@ + quoted(kind_name(found)), 9, 0),
        ErrorReason::ArgValue { span, value, limits } => ls.len() == 2 && label_is(
            ls[0],
            span,
            "Argument has value "@ + dec_digits(value as nat),
            10,
            0,
        ) && label_is(
            ls[1],
            span,
            "Argument must be between "@ + dec_digits(limits.0 as nat) + " and "@ + dec_digits(
                limits.1 as nat,
            ),
            9,
            0,
        ),
    }
}

/// Append `'text'` to a message.
fn append_quoted_str(s: &mut String, text: &str)
    ensures
        final(s)@ == old(s)@ + quoted(text@),
{
    push_char(s, '\'');
    s.append(text);
    push_char(s, '\'');
    proof {
        assert(final(s)@ =~= old(s)@ + quoted(text@));
    }
}

impl ErrorReason {
    /// The one-line message of the report.
    pub fn message(&self) -> (r: &'static str)
        ensures
            r@ == reason_message(*self),
    {
        match self {
            ErrorReason::Unexpected { .. } => "Unexpected token",
            ErrorReason::UnrecognisedCommand { .. } => "Unrecognised command found",
            ErrorReason::ArgType { .. } => "Invalid argument type",
            ErrorReason::ArgValue { .. } => "Argument value exceeds limits",
        }
    }

    /// The labelled spans of the report.
    pub fn labels(&self) -> (r: Vec<Label>)
        ensures
            labels_match(*self, r@),
    {
        match self {
            ErrorReason::Unexpected { span, expected, found } => {
                let ghost texts = expected@.map_values(|c: Option<char>| opt_char_text(c));
                let mut items: Vec<String> = Vec::new();
                let mut i: usize = 0;
                while i < expected.len()
                    invariant
                        0 <= i <= expected@.len(),
                        items@.len() == i,
                        texts == expected@.map_values(|c: Option<char>| opt_char_text(c)),
                        forall|j: int| 0 <= j < i ==> (#[trigger] items@[j])@ == texts[j],
                    decreases expected@.len() - i,
                {
                    let text = match expected[i] {
                        None => String::from_str("End of input"),
                        Some(ch) => char_to_string(ch),
                    };
                    items.push(text);
                    i += 1;
                }
                let expected_msg = expected_message_exec(&items);
                proof {
                    assert(items@.map_values(|x: String| x@) =~= texts);
                }
                let mut found_msg = String::from_str("Found ");
                match found {
                    None => append_quoted_str(&mut found_msg, "End of input"),
                    Some(ch) => {
                        let text = char_to_string(*ch);
                        append_quoted_str(&mut found_msg, text.as_str());
                    },
                }
                let mut labels: Vec<Label> = Vec::new();
                labels.push(Label { span: *span, message: expected_msg, priority: 10, order: 0 });
                labels.push(Label { span: *span, message: found_msg, priority: 9, order: 0 });
                labels
            },
            ErrorReason::UnrecognisedCommand { span } => {
                let mut labels: Vec<Label> = Vec::new();
                labels.push(
                    Label {
                        span: *span,
                        message: String::from_str("Unrecognised command"),
                        priority: 10,
                        order: 0,
                    },
                );
                labels
            },
            ErrorReason::ArgType { span, expected, found } => {
                let ghost texts = expected@.map_values(|k: ExprKind| kind_name(k));
                let mut items: Vec<String> = Vec::new();
                let mut i: usize = 0;
                while i < expected.len()
                    invariant
                        0 <= i <= expected@.len(),
                        items@.len() == i,
                        texts == expected@.map_values(|k: ExprKind| kind_name(k)),
                        forall|j: int| 0 <= j < i ==> (#[trigger] items@[j])@ == texts[j],
                    decreases expected@.len() - i,
                {
                    items.push(String::from_str(expected[i].name()));
                    i += 1;
                }
                let expected_msg = expected_message_exec(&items);
                proof {
                    assert(items@.map_values(|x: String| x@) =~= texts);
                }
                let mut found_msg = String::from_str("Found ");
                append_quoted_str(&mut found_msg, found.name());
                let mut labels: Vec<Label> = Vec::new();
                labels.push(Label { span: *span, message: expected_msg, priority: 10, order: 0 });
                labels.push(Label { span: *span, message: found_msg, priority: 9, order: 0 });
                labels
            },
            ErrorReason::ArgValue { span, value, limits } => {
                let (min, max) = *limits;
                let mut value_msg = String::from_str("Argument has value ");
                let value_text = u32_to_string(*value);
                value_msg.append(value_text.as_str());
                let mut limits_msg = String::from_str("Argument must be between ");
                let min_text = u32_to_string(min);
                limits_msg.append(min_text.as_str());
                limits_msg.append(" and ");
                let max_text = u32_to_string(max);
                limits_msg.append(max_text.as_str());
                let mut labels: Vec<Label> = Vec::new();
                labels.push(Label { span: *span, message: value_msg, priority: 10, order: 0 });
                labels.push(Label { span: *span, message: limits_msg, priority: 9, order: 0 });
                labels
            },
        }
    }
}

} // verus!
