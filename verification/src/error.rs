//! The findings that the validators report.

use vstd::prelude::*;
use vstd::string::StringExecFns;
use crate::text::{nat_text, push_nat};

verus! {

/// One finding of a validator.
#[derive(Debug, Clone, PartialEq, Eq)]
pub enum ValidationError {
    /// The contract's schema itself is not well formed.
    SchemaError(String),
    /// A value is not of the type that its field declares.
    TypeMismatch { field: String, expected: String, actual: String },
    /// A row lacks a field that may not be null.
    MissingField(String),
    /// A field that may not be null holds a null.
    NullConstraintViolation { field: String, row: Option<usize> },
    /// A value breaks a constraint of its field.
    ConstraintViolation { field: String, message: String },
    /// The dataset fails a quality rule.
    QualityCheckFailed(String),
    /// A custom check is not acceptable.
    CustomCheckFailed { name: String, message: String },
    /// A pattern constraint holds a pattern that does not compile.
    InvalidRegex { field: String, error: String },
    /// The newest timestamp is older than the freshness rule allows.
    StaleData { delay: String },
    /// A delay or a timestamp could not be read.
    InvalidDuration(String),
    /// Any other finding.
    General(String),
}

/// The mathematical content of a [`ValidationError`].
pub enum Finding {
    SchemaError(Seq<char>),
    TypeMismatch { field: Seq<char>, expected: Seq<char>, actual: Seq<char> },
    MissingField(Seq<char>),
    NullConstraintViolation { field: Seq<char>, row: Option<nat> },
    ConstraintViolation { field: Seq<char>, message: Seq<char> },
    QualityCheckFailed(Seq<char>),
    CustomCheckFailed { name: Seq<char>, message: Seq<char> },
    InvalidRegex { field: Seq<char>, error: Seq<char> },
    StaleData { delay: Seq<char> },
    InvalidDuration(Seq<char>),
    General(Seq<char>),
}

/// An optional row number as a natural number.
pub open spec fn row_number(row: Option<usize>) -> Option<nat> {
    match row {
        Some(i) => Some(i as nat),
        None => None,
    }
}

/// How an optional row number is written in a message: `Some(3)`, `None`.
pub open spec fn row_text(row: Option<nat>) -> Seq<char> {
    match row {
        Some(i) => "Some("@ + nat_text(i) + ")"@,
        None => "None"@,
    }
}

impl Finding {
    /// The line of text that reports the finding.
    pub open spec fn message(self) -> Seq<char> {
        match self {
            Finding::SchemaError(m) => "Schema validation failed: "@ + m,
            Finding::TypeMismatch { field, expected, actual } => "Type mismatch for field '"@
                + field + "': expected "@ + expected + ", found "@ + actual,
            Finding::MissingField(f) => "Required field '"@ + f + "' is missing"@,
            Finding::NullConstraintViolation { field, row } => "Field '"@ + field
                + "' is null but nullability is not allowed (row "@ + row_text(row) + ")"@,
            Finding::ConstraintViolation { field, message } => "Constraint violation for field '"@
                + field + "': "@ + message,
            Finding::QualityCheckFailed(m) => "Quality check failed: "@ + m,
            Finding::CustomCheckFailed { name, message } => "Custom check '"@ + name
                + "' failed: "@ + message,
            Finding::InvalidRegex { field, error } => "Invalid regex pattern for field '"@ + field
                + "': "@ + error,
            Finding::StaleData { delay } => "Freshness check failed: data is stale by "@ + delay,
            Finding::InvalidDuration(m) => "Invalid time duration format: "@ + m,
            Finding::General(m) => "Validation error: "@ + m,
        }
    }
}

/// The messages of a list of findings, in order.
pub open spec fn messages(findings: Seq<Finding>) -> Seq<Seq<char>> {
    findings.map_values(|f: Finding| f.message())
}

impl View for ValidationError {
    type V = Finding;

    open spec fn view(&self) -> Finding {
        match self {
            ValidationError::SchemaError(m) => Finding::SchemaError(m@),
            ValidationError::TypeMismatch { field, expected, actual } => Finding::TypeMismatch {
                field: field@,
                expected: expected@,
                actual: actual@,
            },
            ValidationError::MissingField(f) => Finding::MissingField(f@),
            ValidationError::NullConstraintViolation { field, row } => {
                Finding::NullConstraintViolation { field: field@, row: row_number(*row) }
            },
            ValidationError::ConstraintViolation { field, message } => {
                Finding::ConstraintViolation { field: field@, message: message@ }
            },
            ValidationError::QualityCheckFailed(m) => Finding::QualityCheckFailed(m@),
            ValidationError::CustomCheckFailed { name, message } => Finding::CustomCheckFailed {
                name: name@,
                message: message@,
            },
            ValidationError::InvalidRegex { field, error } => Finding::InvalidRegex {
                field: field@,
                error: error@,
            },
            ValidationError::StaleData { delay } => Finding::StaleData { delay: delay@ },
            ValidationError::InvalidDuration(m) => Finding::InvalidDuration(m@),
            ValidationError::General(m) => Finding::General(m@),
        }
    }
}

/// The contents of a list of findings, in order.
pub open spec fn findings_of(errors: Seq<ValidationError>) -> Seq<Finding> {
    errors.map_values(|e: ValidationError| e@)
}

/// The content of an optional finding.
pub open spec fn found(error: Option<ValidationError>) -> Option<Finding> {
    match error {
        Some(e) => Some(e@),
        None => None,
    }
}

/// The list that holds an optional item, if there is one.
pub open spec fn optional<T>(item: Option<T>) -> Seq<T> {
    match item {
        Some(x) => seq![x],
        None => Seq::empty(),
    }
}

/// Moves the findings of `more` to the end of `errors`.
pub fn append_findings(errors: &mut Vec<ValidationError>, more: Vec<ValidationError>)
    ensures
        findings_of(final(errors)@) == findings_of(old(errors)@) + findings_of(more@),
{
    let mut more = more;
    errors.append(&mut more);
}

/// Adds `found` to the end of `errors`, if there is one.
pub fn push_finding(errors: &mut Vec<ValidationError>, found: Option<ValidationError>)
    ensures
        findings_of(final(errors)@) == findings_of(old(errors)@) + optional(self::found(found)),
{
    match found {
        Some(e) => {
            errors.push(e);
        },
        None => {
        },
    }
}

/// `a` followed by `b`.
pub fn concat2(a: &str, b: &str) -> (r: String)
    ensures
        r@ == a@ + b@,
{
    let mut s = a.to_owned();
    s.append(b);
    s
}

/// `a`, `b` and `c` one after another.
pub fn concat3(a: &str, b: &str, c: &str) -> (r: String)
    ensures
        r@ == a@ + b@ + c@,
{
    let mut s = a.to_owned();
    s.append(b);
    s.append(c);
    s
}

/// `a`, `b`, `c`, `d` and `e` one after another.
pub fn concat5(a: &str, b: &str, c: &str, d: &str, e: &str) -> (r: String)
    ensures
        r@ == a@ + b@ + c@ + d@ + e@,
{
    let mut s = a.to_owned();
    s.append(b);
    s.append(c);
    s.append(d);
    s.append(e);
    s
}

impl ValidationError {
    /// A finding about the contract's schema.
    pub fn schema(message: &str) -> (r: ValidationError)
        ensures
            r@ == Finding::SchemaError(message@),
    {
        ValidationError::SchemaError(message.to_owned())
    }

    /// A finding about a value of the wrong type.
    pub fn type_mismatch(field: &str, expected: &str, actual: &str) -> (r: ValidationError)
        ensures
            r@ == (Finding::TypeMismatch { field: field@, expected: expected@, actual: actual@ }),
    {
        ValidationError::TypeMismatch {
            field: field.to_owned(),
            expected: expected.to_owned(),
            actual: actual.to_owned(),
        }
    }

    /// A finding about a missing field.
    pub fn missing_field(field: &str) -> (r: ValidationError)
        ensures
            r@ == Finding::MissingField(field@),
    {
        ValidationError::MissingField(field.to_owned())
    }

    /// A finding about a null in a field that may not be null.
    pub fn null_violation(field: &str, row: Option<usize>) -> (r: ValidationError)
        ensures
            r@ == (Finding::NullConstraintViolation { field: field@, row: row_number(row) }),
    {
        ValidationError::NullConstraintViolation { field: field.to_owned(), row }
    }

    /// A finding about a value that breaks a constraint.
    pub fn constraint(field: &str, message: &str) -> (r: ValidationError)
        ensures
            r@ == (Finding::ConstraintViolation { field: field@, message: message@ }),
    {
        ValidationError::ConstraintViolation {
            field: field.to_owned(),
            message: message.to_owned(),
        }
    }

    /// A finding about a failed quality rule.
    pub fn quality_check(message: &str) -> (r: ValidationError)
        ensures
            r@ == Finding::QualityCheckFailed(message@),
    {
        ValidationError::QualityCheckFailed(message.to_owned())
    }

    /// A finding about a custom check.
    pub fn custom_check(name: &str, message: &str) -> (r: ValidationError)
        ensures
            r@ == (Finding::CustomCheckFailed { name: name@, message: message@ }),
    {
        ValidationError::CustomCheckFailed { name: name.to_owned(), message: message.to_owned() }
    }

    /// The line of text that reports the finding.
    pub fn to_string(&self) -> (r: String)
        ensures
            r@ == self@.message(),
    {
        match self {
            ValidationError::SchemaError(m) => concat2("Schema validation failed: ", m.as_str()),
            ValidationError::TypeMismatch { field, expected, actual } => {
                let mut s = concat5(
                    "Type mismatch for field '",
                    field.as_str(),
                    "': expected ",
                    expected.as_str(),
                    ", found ",
                );
                s.append(actual.as_str());
                s
            },
            ValidationError::MissingField(f) => concat3(
                "Required field '",
                f.as_str(),
                "' is missing",
            ),
            ValidationError::NullConstraintViolation { field, row } => {
                let mut s = concat3(
                    "Field '",
                    field.as_str(),
                    "' is null but nullability is not allowed (row ",
                );
                match row {
                    Some(i) => {
                        s.append("Some(");
                        push_nat(&mut s, *i as u128);
                        s.append(")");
                    },
                    None => {
                        s.append("None");
                    },
                }
                s.append(")");
                s
            },
            ValidationError::ConstraintViolation { field, message } => {
                let mut s = concat3("Constraint violation for field '", field.as_str(), "': ");
                s.append(message.as_str());
                s
            },
            ValidationError::QualityCheckFailed(m) => concat2("Quality check failed: ", m.as_str()),
            ValidationError::CustomCheckFailed { name, message } => {
                let mut s = concat3("Custom check '", name.as_str(), "' failed: ");
                s.append(message.as_str());
                s
            },
            ValidationError::InvalidRegex { field, error } => {
                let mut s = concat3("Invalid regex pattern for field '", field.as_str(), "': ");
                s.append(error.as_str());
                s
            },
            ValidationError::StaleData { delay } => concat2(
                "Freshness check failed: data is stale by ",
                delay.as_str(),
            ),
            ValidationError::InvalidDuration(m) => concat2(
                "Invalid time duration format: ",
                m.as_str(),
            ),
            ValidationError::General(m) => concat2("Validation error: ", m.as_str()),
        }
    }
}

/// The messages of a list of findings, in order.
pub fn render_all(errors: &Vec<ValidationError>) -> (r: Vec<String>)
    ensures
        r.deep_view() == messages(findings_of(errors@)),
        r@.len() == errors@.len(),
{
    let mut r: Vec<String> = Vec::new();
    let mut i: usize = 0;
    while i < errors.len()
        invariant
            i <= errors.len(),
            r@.len() == i,
            forall|j: int| 0 <= j < i ==> (#[trigger] r@[j])@ == errors@[j]@.message(),
        decreases errors.len() - i,
    {
        r.push(errors[i].to_string());
        i += 1;
    }
    r
}

} // verus!
