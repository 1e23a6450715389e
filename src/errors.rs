//! The ways in which a rule's text can be rejected.
use vstd::prelude::*;
use crate::text::{chars_of, decimal, decimal_chars, slice_chars, string_of};

verus! {

/// Why the text of a rule was rejected, carrying the offending text.
#[derive(Debug, Clone, PartialEq)]
pub enum ValidationErrors {
    EmptyRule,
    InvalidFormat { expected: usize, found: usize },
    InvalidDirective { found: String },
    InvalidRuleId { value: String },
    InvalidPhase { value: String },
    InvalidSeverity { value: String },
    InvalidVariable { value: String },
    InvalidOperator { value: String },
    EmptyVariable,
    EmptyOperator,
    EmptyActions,
}

/// A rejection as a mathematical value.
pub enum ParseError {
    EmptyRule,
    InvalidFormat { expected: nat, found: nat },
    InvalidDirective { found: Seq<char> },
    InvalidRuleId { value: Seq<char> },
    InvalidPhase { value: Seq<char> },
    InvalidSeverity { value: Seq<char> },
    InvalidVariable { value: Seq<char> },
    InvalidOperator { value: Seq<char> },
    EmptyVariable,
    EmptyOperator,
    EmptyActions,
}

impl View for ValidationErrors {
    type V = ParseError;

    open spec fn view(&self) -> ParseError {
        match self {
            ValidationErrors::EmptyRule => ParseError::EmptyRule,
            ValidationErrors::InvalidFormat { expected, found } => ParseError::InvalidFormat {
                expected: *expected as nat,
                found: *found as nat,
            },
            ValidationErrors::InvalidDirective { found } => ParseError::InvalidDirective {
                found: found@,
            },
            ValidationErrors::InvalidRuleId { value } => ParseError::InvalidRuleId { value: value@ },
            ValidationErrors::InvalidPhase { value } => ParseError::InvalidPhase { value: value@ },
            ValidationErrors::InvalidSeverity { value } => ParseError::InvalidSeverity {
                value: value@,
            },
            ValidationErrors::InvalidVariable { value } => ParseError::InvalidVariable {
                value: value@,
            },
            ValidationErrors::InvalidOperator { value } => ParseError::InvalidOperator {
                value: value@,
            },
            ValidationErrors::EmptyVariable => ParseError::EmptyVariable,
            ValidationErrors::EmptyOperator => ParseError::EmptyOperator,
            ValidationErrors::EmptyActions => ParseError::EmptyActions,
        }
    }
}

/// The message that describes a rejection.
pub open spec fn error_message(e: ParseError) -> Seq<char> {
    match e {
        ParseError::EmptyRule => "Rule string is empty or contains only whitespace"@,
        ParseError::InvalidFormat { expected, found } => "Invalid rule format: expected "@
            + decimal(expected) + " parts, found "@ + decimal(found),
        ParseError::InvalidDirective { found } => "Invalid directive: expected 'SecRule', found '"@
            + found + "'"@,
        ParseError::InvalidRuleId { value } => "Invalid rule ID: '"@ + value
            + "' is not a valid number"@,
        ParseError::InvalidPhase { value } => "Invalid phase: '"@ + value + "' is not a valid phase"@,
        ParseError::InvalidSeverity { value } => "Invalid severity: '"@ + value
            + "' is not a valid severity (0-7)"@,
        ParseError::InvalidVariable { value } => "Invalid variable: '"@ + value
            + "' is not a valid variable"@,
        ParseError::InvalidOperator { value } => "Invalid operator: '"@ + value
            + "' is not a valid operator"@,
        ParseError::EmptyVariable => "Variable cannot be empty"@,
        ParseError::EmptyOperator => "Operator cannot be empty"@,
        ParseError::EmptyActions => "Actions cannot be empty"@,
    }
}

/// `before`, then `middle`, then `after`.
fn framed(before: &str, middle: &[char], after: &str) -> (r: String)
    ensures
        r@ == before@ + middle@ + after@,
{
    let mut m = chars_of(before);
    let mut inner = slice_chars(middle, 0, middle.len());
    assert(middle@.subrange(0, middle@.len() as int) =~= middle@);
    m.append(&mut inner);
    let mut tail = chars_of(after);
    m.append(&mut tail);
    string_of(&m)
}

impl ValidationErrors {
    /// A sentence that describes the rejection.
    pub fn message(&self) -> (r: String)
        ensures
            r@ == error_message(self@),
    {
        match self {
            ValidationErrors::EmptyRule => string_of(&chars_of("Rule string is empty or contains only whitespace")),
            ValidationErrors::InvalidFormat { expected, found } => {
                let mut m = chars_of("Invalid rule format: expected ");
                let mut e = decimal_chars(*expected as u64);
                m.append(&mut e);
                let mut middle = chars_of(" parts, found ");
                m.append(&mut middle);
                let mut f = decimal_chars(*found as u64);
                m.append(&mut f);
                string_of(&m)
            },
            ValidationErrors::InvalidDirective { found } => framed(
                "Invalid directive: expected 'SecRule', found '",
                &chars_of(found.as_str()),
                "'",
            ),
            ValidationErrors::InvalidRuleId { value } => framed(
                "Invalid rule ID: '",
                &chars_of(value.as_str()),
                "' is not a valid number",
            ),
            ValidationErrors::InvalidPhase { value } => framed(
                "Invalid phase: '",
                &chars_of(value.as_str()),
                "' is not a valid phase",
            ),
            ValidationErrors::InvalidSeverity { value } => framed(
                "Invalid severity: '",
                &chars_of(value.as_str()),
                "' is not a valid severity (0-7)",
            ),
            ValidationErrors::InvalidVariable { value } => framed(
                "Invalid variable: '",
                &chars_of(value.as_str()),
                "' is not a valid variable",
            ),
            ValidationErrors::InvalidOperator { value } => framed(
                "Invalid operator: '",
                &chars_of(value.as_str()),
                "' is not a valid operator",
            ),
            ValidationErrors::EmptyVariable => string_of(&chars_of("Variable cannot be empty")),
            ValidationErrors::EmptyOperator => string_of(&chars_of("Operator cannot be empty")),
            ValidationErrors::EmptyActions => string_of(&chars_of("Actions cannot be empty")),
        }
    }
}

} // verus!
