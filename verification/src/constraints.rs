//! The constraint stage: allowed values, ranges and patterns of the fields
//! that declare them. Nulls and absent fields are never checked here.

use vstd::prelude::*;
use vstd::hash_map::StringHashMap;
use vstd::string::StringExecFns;
use regex::Regex;
use crate::contract::{Contract, Field, FieldConstraints};
use crate::dataset::{DataRow, DataSet, DataValue, ValueView};
use crate::decimal::Decimal;
use crate::error::{append_findings, concat2, concat3, concat5, findings_of, found, optional,
    push_finding, Finding, ValidationError};
use crate::text::{i64_to_string, int_text, join, joined, same_text};

verus! {

/// A compiled regular expression of the `regex` crate: `regex::Regex`.
/// Nothing inside it is visible here.
#[verifier::external_type_specification]
#[verifier::external_body]
pub struct ExRegex(Regex);

/// Whether a compiled regular expression matches somewhere in `text`, as
/// `Regex::is_match` decides it.
pub uninterp spec fn regex_accepts(re: &Regex, text: Seq<char>) -> bool;

/// The message of the error with which `Regex::new` refuses a pattern, or
/// `None` for a pattern that it compiles.
pub uninterp spec fn regex_compile_error(pattern: Seq<char>) -> Option<Seq<char>>;

/// Whether the regular expression that `Regex::new` compiles from `pattern`
/// matches somewhere in `text`, as `Regex::is_match` decides it.
pub uninterp spec fn regex_matches(pattern: Seq<char>, text: Seq<char>) -> bool;

/// Whether `re` matches the texts that the expression compiled from
/// `pattern` by `Regex::new` matches.
pub open spec fn compiled_from(re: &Regex, pattern: Seq<char>) -> bool {
    forall|text: Seq<char>| #[trigger] regex_accepts(re, text) == regex_matches(pattern, text)
}

/// Calls `Regex::new` and turns its error into the error's message. Success
/// and the message depend on the pattern alone and are known by the name
/// [`regex_compile_error`]; what the compiled expression matches depends on
/// the pattern alone too, and is known by the name [`regex_matches`].
#[verifier::external_body]
fn compile_regex(pattern: &str) -> (r: Result<Regex, String>)
    ensures
        match r {
            Ok(re) => regex_compile_error(pattern@) is None && forall|text: Seq<char>| #[trigger]
                regex_accepts(&re, text) == regex_matches(pattern@, text),
            Err(msg) => regex_compile_error(pattern@) == Some(msg@),
        },
{
    Regex::new(pattern).map_err(|e| e.to_string())
}

/// Calls `Regex::is_match`. The result depends on the expression and the
/// text alone and is known by the name [`regex_accepts`].
#[verifier::external_body]
fn regex_is_match(re: &Regex, text: &str) -> (b: bool)
    ensures
        b == regex_accepts(re, text@),
{
    re.is_match(text)
}

/// How a truth value is written.
pub open spec fn bool_text(b: bool) -> Seq<char> {
    if b {
        "true"@
    } else {
        "false"@
    }
}

/// The finding for a value that is not in the allowed list. `shown` is the
/// value as the message shows it.
pub open spec fn not_allowed(name: Seq<char>, shown: Seq<char>, allowed: Seq<Seq<char>>) -> Finding {
    Finding::ConstraintViolation {
        field: name,
        message: "Value "@ + shown + " not in allowed values: ["@ + joined(allowed, ", "@) + "]"@,
    }
}

/// What an allowed-values constraint finds for a value that is not null.
/// Strings and truth values are compared as text and shown in quotes,
/// numbers by their decimal text; other values cannot be compared.
pub open spec fn allowed_finding(
    name: Seq<char>,
    v: ValueView,
    allowed: Seq<Seq<char>>,
) -> Option<Finding> {
    match v {
        ValueView::String(s) => if allowed.contains(s) {
            None
        } else {
            Some(not_allowed(name, "'"@ + s + "'"@, allowed))
        },
        ValueView::Bool(b) => if allowed.contains(bool_text(b)) {
            None
        } else {
            Some(not_allowed(name, "'"@ + bool_text(b) + "'"@, allowed))
        },
        ValueView::Int(i) => if allowed.contains(int_text(i as int)) {
            None
        } else {
            Some(not_allowed(name, int_text(i as int), allowed))
        },
        ValueView::Float(d) => if allowed.contains(d.text()) {
            None
        } else {
            Some(not_allowed(name, d.text(), allowed))
        },
        _ => Some(
            Finding::ConstraintViolation {
                field: name,
                message: "AllowedValues constraint not applicable to type "@ + v.type_label(),
            },
        ),
    }
}

/// What a range constraint finds for a value that is not null: the value
/// must be a number, and not below `min` nor above `max`.
pub open spec fn range_finding(name: Seq<char>, v: ValueView, min: Decimal, max: Decimal) -> Option<
    Finding,
> {
    match v.numeric() {
        None => Some(
            Finding::ConstraintViolation {
                field: name,
                message: "Range constraint requires numeric type, found "@ + v.type_label(),
            },
        ),
        Some(n) => if n.lt(min) || n.gt(max) {
            Some(
                Finding::ConstraintViolation {
                    field: name,
                    message: "Value "@ + n.text() + " out of range ["@ + min.text() + ", "@
                        + max.text() + "]"@,
                },
            )
        } else {
            None
        },
    }
}

/// What compiling `pattern` and matching it against `text` gives: the
/// compiler's message, or whether the expression matches.
pub open spec fn pattern_outcome(pattern: Seq<char>, text: Seq<char>) -> Result<bool, Seq<char>> {
    match regex_compile_error(pattern) {
        Some(msg) => Err(msg),
        None => Ok(regex_matches(pattern, text)),
    }
}

/// What a pattern constraint finds for a string, given the outcome of
/// compiling and matching.
pub open spec fn pattern_verdict_of(
    name: Seq<char>,
    text: Seq<char>,
    pattern: Seq<char>,
    outcome: Result<bool, Seq<char>>,
) -> Option<Finding> {
    match outcome {
        Err(msg) => Some(Finding::InvalidRegex { field: name, error: msg }),
        Ok(true) => None,
        Ok(false) => Some(
            Finding::ConstraintViolation {
                field: name,
                message: "Value '"@ + text + "' does not match pattern '"@ + pattern + "'"@,
            },
        ),
    }
}

/// What a pattern constraint finds for a value that is not null: the value
/// must be a string that the pattern matches. A pattern that does not
/// compile is a finding of its own.
pub open spec fn pattern_finding(name: Seq<char>, v: ValueView, pattern: Seq<char>) -> Option<
    Finding,
> {
    match v {
        ValueView::String(s) => pattern_verdict_of(name, s, pattern, pattern_outcome(pattern, s)),
        _ => Some(
            Finding::ConstraintViolation {
                field: name,
                message: "Pattern constraint requires string type, found "@ + v.type_label(),
            },
        ),
    }
}

/// What one constraint of a field finds in one row. A field that the row
/// lacks or holds as null is not checked.
pub open spec fn constraint_finding(
    field: Field,
    constraint: FieldConstraints,
    row: Map<Seq<char>, ValueView>,
) -> Option<Finding> {
    if !row.contains_key(field.name@) || row[field.name@] is Null {
        None
    } else {
        let v = row[field.name@];
        match constraint {
            FieldConstraints::AllowedValues { values } => allowed_finding(
                field.name@,
                v,
                values.deep_view(),
            ),
            FieldConstraints::Range { min, max } => range_finding(field.name@, v, min, max),
            FieldConstraints::Pattern { regex } => pattern_finding(field.name@, v, regex@),
            FieldConstraints::Custom { definition } => None,
        }
    }
}

/// What the constraints of one field find in one row, in their order.
pub open spec fn field_constraint_findings(
    field: Field,
    constraints: Seq<FieldConstraints>,
    row: Map<Seq<char>, ValueView>,
) -> Seq<Finding>
    decreases constraints.len(),
{
    if constraints.len() == 0 {
        Seq::empty()
    } else {
        field_constraint_findings(field, constraints.drop_last(), row) + optional(
            constraint_finding(field, constraints.last(), row),
        )
    }
}

/// The constraints that a field declares.
pub open spec fn declared(field: Field) -> Seq<FieldConstraints> {
    match field.constraints {
        Some(list) => list@,
        None => Seq::empty(),
    }
}

/// What the constraint stage finds in one row: the findings of the fields,
/// in the order of the fields.
pub open spec fn row_constraint_findings(
    fields: Seq<Field>,
    row: Map<Seq<char>, ValueView>,
) -> Seq<Finding>
    decreases fields.len(),
{
    if fields.len() == 0 {
        Seq::empty()
    } else {
        row_constraint_findings(fields.drop_last(), row) + field_constraint_findings(
            fields.last(),
            declared(fields.last()),
            row,
        )
    }
}

/// What the constraint stage finds in a dataset: the findings of the rows,
/// in the order of the rows.
pub open spec fn constraint_findings(
    fields: Seq<Field>,
    data: Seq<Map<Seq<char>, ValueView>>,
) -> Seq<Finding>
    decreases data.len(),
{
    if data.len() == 0 {
        Seq::empty()
    } else {
        constraint_findings(fields, data.drop_last()) + row_constraint_findings(
            fields,
            data.last(),
        )
    }
}

/// The content of the outcome of compiling and matching.
pub open spec fn outcome_view(outcome: Result<bool, String>) -> Result<bool, Seq<char>> {
    match outcome {
        Ok(b) => Ok(b),
        Err(msg) => Err(msg@),
    }
}

/// Whether a list of strings holds `value`.
pub fn list_contains(list: &Vec<String>, value: &str) -> (r: bool)
    ensures
        r == list.deep_view().contains(value@),
{
    let mut i: usize = 0;
    while i < list.len()
        invariant
            i <= list.len(),
            forall|j: int| 0 <= j < i ==> list.deep_view()[j] != value@,
        decreases list.len() - i,
    {
        if same_text(list[i].as_str(), value) {
            assert(list.deep_view()[i as int] == value@);
            return true;
        }
        i += 1;
    }
    false
}

/// The finding for a value that is not in the allowed list.
fn not_allowed_error(name: &str, shown: &str, allowed: &Vec<String>) -> (e: ValidationError)
    ensures
        e@ == not_allowed(name@, shown@, allowed.deep_view()),
{
    let list = join(allowed, ", ");
    let message = concat5("Value ", shown, " not in allowed values: [", list.as_str(), "]");
    ValidationError::constraint(name, message.as_str())
}

/// What a pattern constraint finds for a string, given the outcome of
/// compiling the pattern and matching it against the string.
pub fn pattern_verdict(name: &str, text: &str, pattern: &str, outcome: Result<bool, String>) -> (r:
    Option<ValidationError>)
    ensures
        found(r) == pattern_verdict_of(name@, text@, pattern@, outcome_view(outcome)),
{
    match outcome {
        Err(msg) => Some(ValidationError::InvalidRegex { field: name.to_owned(), error: msg }),
        Ok(true) => None,
        Ok(false) => {
            let message = concat5("Value '", text, "' does not match pattern '", pattern, "'");
            Some(ValidationError::constraint(name, message.as_str()))
        },
    }
}

/// Checks the constraints that the fields of a contract declare. It keeps
/// each pattern that it has compiled, by the pattern's text.
pub struct ConstraintValidator {
    regex_cache: StringHashMap<Regex>,
}

impl ConstraintValidator {
    #[verifier::type_invariant]
    spec fn cache_is_sound(self) -> bool {
        forall|k: Seq<char>| #[trigger]
            self.regex_cache@.contains_key(k) ==> regex_compile_error(k) is None && compiled_from(
                &self.regex_cache@[k],
                k,
            )
    }

    /// The patterns that have been compiled and are kept.
    pub closed spec fn compiled(self) -> Set<Seq<char>> {
        self.regex_cache@.dom()
    }

    /// A constraint validator that has compiled no pattern yet.
    pub fn new() -> (r: ConstraintValidator)
        ensures
            r.compiled() == Set::<Seq<char>>::empty(),
    {
        let r = ConstraintValidator { regex_cache: StringHashMap::new() };
        assert(r.compiled() =~= Set::<Seq<char>>::empty());
        r
    }

    /// Compiles `pattern`, unless it has been compiled before, and matches it
    /// against `text`. A pattern that does not compile gives the compiler's
    /// message and is not kept.
    pub fn match_pattern(&mut self, pattern: &str, text: &str) -> (r: Result<bool, String>)
        ensures
            outcome_view(r) == pattern_outcome(pattern@, text@),
            final(self).compiled() == if regex_compile_error(pattern@) is None {
                old(self).compiled().insert(pattern@)
            } else {
                old(self).compiled()
            },
    {
        proof {
            use_type_invariant(&*self);
        }
        if !self.regex_cache.contains_key(pattern) {
            match compile_regex(pattern) {
                Err(msg) => {
                    return Err(msg);
                },
                Ok(re) => {
                    let mut cache: StringHashMap<Regex> = StringHashMap::new();
                    std::mem::swap(&mut cache, &mut self.regex_cache);
                    cache.insert(pattern.to_owned(), re);
                    *self = ConstraintValidator { regex_cache: cache };
                },
            }
        }
        assert(self.compiled() =~= old(self).compiled().insert(pattern@));
        match self.regex_cache.get(pattern) {
            Some(re) => Ok(regex_is_match(re, text)),
            None => vstd::pervasive::unreached(),
        }
    }

    /// Checks that a value is one of the allowed values.
    pub fn validate_allowed_values(
        &self,
        field: &Field,
        value: &DataValue,
        allowed: &Vec<String>,
        row_idx: usize,
    ) -> (r: Option<ValidationError>)
        ensures
            found(r) == allowed_finding(field.name@, value@, allowed.deep_view()),
    {
        let name = field.name.as_str();
        match value {
            DataValue::String(s) => {
                if list_contains(allowed, s.as_str()) {
                    None
                } else {
                    let shown = concat3("'", s.as_str(), "'");
                    Some(not_allowed_error(name, shown.as_str(), allowed))
                }
            },
            DataValue::Bool(b) => {
                let text = if *b {
                    "true"
                } else {
                    "false"
                };
                if list_contains(allowed, text) {
                    None
                } else {
                    let shown = concat3("'", text, "'");
                    Some(not_allowed_error(name, shown.as_str(), allowed))
                }
            },
            DataValue::Int(i) => {
                let text = i64_to_string(*i);
                if list_contains(allowed, text.as_str()) {
                    None
                } else {
                    Some(not_allowed_error(name, text.as_str(), allowed))
                }
            },
            DataValue::Float(d) => {
                let text = d.to_string();
                if list_contains(allowed, text.as_str()) {
                    None
                } else {
                    Some(not_allowed_error(name, text.as_str(), allowed))
                }
            },
            _ => {
                let message = concat2(
                    "AllowedValues constraint not applicable to type ",
                    value.type_label(),
                );
                Some(ValidationError::constraint(name, message.as_str()))
            },
        }
    }

    /// Checks that a value is a number between `min` and `max`, both
    /// included.
    pub fn validate_range(
        &self,
        field: &Field,
        value: &DataValue,
        min: &Decimal,
        max: &Decimal,
        row_idx: usize,
    ) -> (r: Option<ValidationError>)
        ensures
            found(r) == range_finding(field.name@, value@, *min, *max),
    {
        let name = field.name.as_str();
        match value.as_float() {
            None => {
                let message = concat2(
                    "Range constraint requires numeric type, found ",
                    value.type_label(),
                );
                Some(ValidationError::constraint(name, message.as_str()))
            },
            Some(n) => {
                if n.less_than(min) || max.less_than(&n) {
                    let mut message = concat5(
                        "Value ",
                        n.to_string().as_str(),
                        " out of range [",
                        min.to_string().as_str(),
                        ", ",
                    );
                    message.append(max.to_string().as_str());
                    message.append("]");
                    Some(ValidationError::constraint(name, message.as_str()))
                } else {
                    None
                }
            },
        }
    }

    /// Checks that a value is a string that `pattern` matches.
    pub fn validate_pattern(
        &mut self,
        field: &Field,
        value: &DataValue,
        pattern: &str,
        row_idx: usize,
    ) -> (r: Option<ValidationError>)
        ensures
            found(r) == pattern_finding(field.name@, value@, pattern@),
            final(self).compiled() == if value@ is String && regex_compile_error(pattern@) is None {
                old(self).compiled().insert(pattern@)
            } else {
                old(self).compiled()
            },
    {
        let name = field.name.as_str();
        match value.as_string() {
            None => {
                let message = concat2(
                    "Pattern constraint requires string type, found ",
                    value.type_label(),
                );
                Some(ValidationError::constraint(name, message.as_str()))
            },
            Some(text) => {
                let outcome = self.match_pattern(pattern, text);
                pattern_verdict(name, text, pattern, outcome)
            },
        }
    }

    /// A custom constraint is never evaluated: it finds nothing.
    pub fn validate_custom(
        &self,
        field: &Field,
        value: &DataValue,
        definition: &str,
        row_idx: usize,
    ) -> (r: Option<ValidationError>)
        ensures
            r is None,
    {
        None
    }

    /// Checks one constraint of a field in one row.
    pub fn validate_constraint(
        &mut self,
        field: &Field,
        constraint: &FieldConstraints,
        row: &DataRow,
        row_idx: usize,
    ) -> (r: Option<ValidationError>)
        ensures
            found(r) == constraint_finding(*field, *constraint, row@),
            old(self).compiled().subset_of(final(self).compiled()),
    {
        match row.get(field.name.as_str()) {
            None => None,
            Some(value) => {
                if value.is_null() {
                    None
                } else {
                    match constraint {
                        FieldConstraints::AllowedValues { values } => self.validate_allowed_values(
                            field,
                            value,
                            values,
                            row_idx,
                        ),
                        FieldConstraints::Range { min, max } => self.validate_range(
                            field,
                            value,
                            min,
                            max,
                            row_idx,
                        ),
                        FieldConstraints::Pattern { regex } => self.validate_pattern(
                            field,
                            value,
                            regex.as_str(),
                            row_idx,
                        ),
                        FieldConstraints::Custom { definition } => self.validate_custom(
                            field,
                            value,
                            definition.as_str(),
                            row_idx,
                        ),
                    }
                }
            },
        }
    }

    /// Checks every constraint of every field in one row.
    pub fn validate_row(&mut self, contract: &Contract, row: &DataRow, row_idx: usize) -> (errors:
        Vec<ValidationError>)
        ensures
            findings_of(errors@) == row_constraint_findings(contract.schema.fields@, row@),
            old(self).compiled().subset_of(final(self).compiled()),
    {
        let fields = &contract.schema.fields;
        let mut errors: Vec<ValidationError> = Vec::new();
        let mut i: usize = 0;
        while i < fields.len()
            invariant
                i <= fields.len(),
                findings_of(errors@) == row_constraint_findings(fields@.take(i as int), row@),
                old(self).compiled().subset_of(self.compiled()),
            decreases fields.len() - i,
        {
            let field = &fields[i];
            let ghost base = findings_of(errors@);
            match &field.constraints {
                None => {
                },
                Some(list) => {
                    let mut k: usize = 0;
                    while k < list.len()
                        invariant
                            k <= list.len(),
                            findings_of(errors@) == base + field_constraint_findings(
                                *field,
                                list@.take(k as int),
                                row@,
                            ),
                            old(self).compiled().subset_of(self.compiled()),
                        decreases list.len() - k,
                    {
                        let one = self.validate_constraint(field, &list[k], row, row_idx);
                        push_finding(&mut errors, one);
                        proof {
                            assert(list@.take(k + 1).drop_last() =~= list@.take(k as int));
                        }
                        k += 1;
                    }
                    assert(list@.take(k as int) =~= list@);
                },
            }
            proof {
                assert(fields@.take(i + 1).drop_last() =~= fields@.take(i as int));
            }
            i += 1;
        }
        assert(fields@.take(i as int) =~= fields@);
        errors
    }

    /// Checks every constraint of every field in every row of a dataset.
    /// What is found does not depend on the patterns compiled before.
    pub fn validate(&mut self, contract: &Contract, dataset: &DataSet) -> (errors: Vec<
        ValidationError,
    >)
        ensures
            findings_of(errors@) == constraint_findings(contract.schema.fields@, dataset@),
            old(self).compiled().subset_of(final(self).compiled()),
    {
        let rows = dataset.rows();
        let mut errors: Vec<ValidationError> = Vec::new();
        let mut i: usize = 0;
        while i < rows.len()
            invariant
                i <= rows.len(),
                crate::dataset::rows_view(rows@) == dataset@,
                findings_of(errors@) == constraint_findings(
                    contract.schema.fields@,
                    dataset@.take(i as int),
                ),
                old(self).compiled().subset_of(self.compiled()),
            decreases rows.len() - i,
        {
            let found_here = self.validate_row(contract, &rows[i], i);
            append_findings(&mut errors, found_here);
            proof {
                assert(dataset@.take(i + 1).drop_last() =~= dataset@.take(i as int));
            }
            i += 1;
        }
        assert(dataset@.take(i as int) =~= dataset@);
        errors
    }
}

impl Default for ConstraintValidator {
    fn default() -> (r: ConstraintValidator) {
        ConstraintValidator::new()
    }
}

} // verus!
