//! The options of one validation run and the report that it gives.

use vstd::prelude::*;
use crate::contract::Contract;
use crate::properties::Properties;

verus! {

/// The error of the `serde_json` crate: `serde_json::Error`. Nothing
/// inside it is visible here.
#[verifier::external_type_specification]
#[verifier::external_body]
pub struct ExJsonError(serde_json::Error);

/// What can go wrong with a contract.
#[derive(Debug)]
pub enum ContractError {
    /// The schema is not valid.
    SchemaValidation(String),
    /// A value breaks a constraint of its field.
    ConstraintViolation { field: String, message: String },
    /// The data fails a quality check.
    QualityCheckFailed { check: String, message: String },
    /// The service level is not met.
    SlaViolation(String),
    /// The contract is of another version than expected.
    VersionMismatch { expected: String, actual: String },
    /// A field that is required is missing.
    MissingField(String),
    /// A field is of another type than expected.
    InvalidFieldType { field: String, expected: String, actual: String },
    /// The data format is not supported.
    UnsupportedFormat(String),
    /// A document could not be written or read as JSON.
    Serialization(serde_json::Error),
    /// Any other failure.
    Other(String),
}

/// The result of a validation that gives no value.
pub type ValidationResult = Result<(), ContractError>;

/// A validator of contracts against some source of data.
pub trait ContractValidator: Send + Sync {
    /// Validates a contract against the data source.
    fn validate(&self, contract: &Contract, context: &ValidationContext) -> ValidationResult;

    /// Validates the schema of the contract only. Unless an implementation
    /// says otherwise, this is [`Self::validate`].
    fn validate_schema(&self, contract: &Contract, context: &ValidationContext) -> (r:
        ValidationResult)
        default_ensures
            call_ensures(Self::validate, (self, contract, context), r),
    {
        self.validate(contract, context)
    }

    /// Validates the quality rules of the contract. Unless an
    /// implementation says otherwise, this is [`Self::validate`] for a
    /// contract with quality rules and a success for one without.
    fn validate_quality(&self, contract: &Contract, context: &ValidationContext) -> (r:
        ValidationResult)
        default_ensures
            contract.quality_checks is Some ==> call_ensures(
                Self::validate,
                (self, contract, context),
                r,
            ),
            contract.quality_checks is None ==> r is Ok,
    {
        if contract.quality_checks.is_some() {
            self.validate(contract, context)
        } else {
            Ok(())
        }
    }

    /// Validates the service level of the contract. Unless an
    /// implementation says otherwise, this is [`Self::validate`] for a
    /// contract with a service level and a success for one without.
    fn validate_sla(&self, contract: &Contract, context: &ValidationContext) -> (r:
        ValidationResult)
        default_ensures
            contract.sla is Some ==> call_ensures(Self::validate, (self, contract, context), r),
            contract.sla is None ==> r is Ok,
    {
        if contract.sla.is_some() {
            self.validate(contract, context)
        } else {
            Ok(())
        }
    }
}

/// The options of one validation run.
#[derive(Debug, Clone)]
pub struct ValidationContext {
    /// Whether quality findings count as errors, and whether schema errors
    /// end the run at once.
    pub strict: bool,
    /// Whether the run ends after the schema and constraint stages.
    pub schema_only: bool,
    /// How many rows to validate at most; `None` for all rows.
    pub sample_size: Option<usize>,
    /// Free-form settings, which the validation itself does not read.
    pub metadata: Properties,
}

/// What one validation run found.
#[derive(Debug, Clone)]
pub struct ValidationReport {
    /// Whether there are no errors.
    pub passed: bool,
    /// The errors, in the order in which they were found.
    pub errors: Vec<String>,
    /// The warnings, in the order in which they were found.
    pub warnings: Vec<String>,
    /// Counts of the run.
    pub stats: ValidationStats,
}

/// Counts of one validation run.
#[derive(Debug, Clone, Copy, PartialEq, Eq, Structural)]
pub struct ValidationStats {
    /// How many rows were validated.
    pub records_validated: usize,
    /// How many fields were checked.
    pub fields_checked: usize,
    /// How many constraints were evaluated.
    pub constraints_evaluated: usize,
    /// How long the run took, in milliseconds.
    pub duration_ms: u64,
}

impl Default for ValidationStats {
    /// All counts zero.
    fn default() -> (r: ValidationStats)
        ensures
            r == (ValidationStats {
                records_validated: 0,
                fields_checked: 0,
                constraints_evaluated: 0,
                duration_ms: 0,
            }),
    {
        ValidationStats {
            records_validated: 0,
            fields_checked: 0,
            constraints_evaluated: 0,
            duration_ms: 0,
        }
    }
}

impl ValidationContext {
    /// The default options: lenient, all stages, all rows, no settings.
    pub fn new() -> (r: ValidationContext)
        ensures
            !r.strict,
            !r.schema_only,
            r.sample_size is None,
            r.metadata@ == Map::<Seq<char>, Seq<char>>::empty(),
    {
        ValidationContext {
            strict: false,
            schema_only: false,
            sample_size: None,
            metadata: Properties::new(),
        }
    }

    /// The same options with strict mode set to `strict`.
    pub fn with_strict(self, strict: bool) -> (r: ValidationContext)
        ensures
            r.strict == strict,
            r.schema_only == self.schema_only,
            r.sample_size == self.sample_size,
            r.metadata == self.metadata,
    {
        let mut r = self;
        r.strict = strict;
        r
    }

    /// The same options with schema-only mode set to `schema_only`.
    pub fn with_schema_only(self, schema_only: bool) -> (r: ValidationContext)
        ensures
            r.strict == self.strict,
            r.schema_only == schema_only,
            r.sample_size == self.sample_size,
            r.metadata == self.metadata,
    {
        let mut r = self;
        r.schema_only = schema_only;
        r
    }

    /// The same options with at most `size` rows to validate.
    pub fn with_sample_size(self, size: usize) -> (r: ValidationContext)
        ensures
            r.strict == self.strict,
            r.schema_only == self.schema_only,
            r.sample_size == Some(size),
            r.metadata == self.metadata,
    {
        let mut r = self;
        r.sample_size = Some(size);
        r
    }

    /// The same options with the setting `key` set to `value`.
    pub fn with_metadata(self, key: &str, value: &str) -> (r: ValidationContext)
        ensures
            r.strict == self.strict,
            r.schema_only == self.schema_only,
            r.sample_size == self.sample_size,
            r.metadata@ == self.metadata@.insert(key@, value@),
    {
        let mut metadata = self.metadata;
        metadata.insert(key.to_owned(), value.to_owned());
        ValidationContext {
            strict: self.strict,
            schema_only: self.schema_only,
            sample_size: self.sample_size,
            metadata,
        }
    }
}

impl Default for ValidationContext {
    /// The default options.
    fn default() -> (r: ValidationContext)
        ensures
            !r.strict,
            !r.schema_only,
            r.sample_size is None,
            r.metadata@ == Map::<Seq<char>, Seq<char>>::empty(),
    {
        ValidationContext::new()
    }
}

impl ValidationReport {
    /// A report passes exactly if it has no errors.
    pub open spec fn consistent(self) -> bool {
        self.passed == (self.errors@.len() == 0)
    }

    /// A report without findings.
    pub fn success() -> (r: ValidationReport)
        ensures
            r.passed,
            r.errors@.len() == 0,
            r.warnings@.len() == 0,
            r.stats == (ValidationStats {
                records_validated: 0,
                fields_checked: 0,
                constraints_evaluated: 0,
                duration_ms: 0,
            }),
            r.consistent(),
    {
        ValidationReport {
            passed: true,
            errors: Vec::new(),
            warnings: Vec::new(),
            stats: ValidationStats::default(),
        }
    }

    /// A report with one error.
    pub fn failure(error: &str) -> (r: ValidationReport)
        ensures
            !r.passed,
            r.errors.deep_view() == seq![error@],
            r.warnings@.len() == 0,
            r.stats == (ValidationStats {
                records_validated: 0,
                fields_checked: 0,
                constraints_evaluated: 0,
                duration_ms: 0,
            }),
            r.consistent(),
    {
        let mut errors: Vec<String> = Vec::new();
        errors.push(error.to_owned());
        let r = ValidationReport {
            passed: false,
            errors,
            warnings: Vec::new(),
            stats: ValidationStats::default(),
        };
        r
    }

    /// Adds an error: the report no longer passes.
    pub fn add_error(&mut self, error: &str)
        ensures
            !final(self).passed,
            final(self).errors.deep_view() == old(self).errors.deep_view().push(error@),
            final(self).warnings == old(self).warnings,
            final(self).stats == old(self).stats,
            final(self).consistent(),
    {
        self.errors.push(error.to_owned());
        self.passed = false;
    }

    /// Adds a warning: whether the report passes is unchanged.
    pub fn add_warning(&mut self, warning: &str)
        ensures
            final(self).passed == old(self).passed,
            final(self).errors == old(self).errors,
            final(self).warnings.deep_view() == old(self).warnings.deep_view().push(warning@),
            final(self).stats == old(self).stats,
            old(self).consistent() ==> final(self).consistent(),
    {
        self.warnings.push(warning.to_owned());
    }
}

} // verus!
