//! The validation engine: the four stages in order, the routing of findings
//! to errors and warnings, and the report.

use vstd::prelude::*;
use crate::constraints::{constraint_findings, ConstraintValidator};
use crate::contract::Contract;
use crate::custom::{custom_findings, lemma_time_matters_only_for_freshness, reads_clock,
    CustomValidator};
use crate::dataset::{DataSet, ValueView};
use crate::error::{findings_of, messages, render_all, Finding, ValidationError};
use crate::quality::{quality_findings, QualityValidator};
use crate::schema::{definition_findings, schema_findings, SchemaValidator};
use crate::timing::Instant;
use crate::text::{join, joined};
use crate::validation::{ContractError, ContractValidator, ValidationContext, ValidationReport,
    ValidationResult, ValidationStats};

verus! {

/// The findings of one run, routed.
pub struct Outcome {
    pub errors: Seq<Finding>,
    pub warnings: Seq<Finding>,
}

/// The rows that a run validates: the first `sample_size` rows where that
/// is set and smaller than the dataset, else all rows.
pub open spec fn working_set(
    data: Seq<Map<Seq<char>, ValueView>>,
    sample_size: Option<usize>,
) -> Seq<Map<Seq<char>, ValueView>> {
    match sample_size {
        Some(n) => if n <= data.len() {
            data.take(n as int)
        } else {
            data
        },
        None => data,
    }
}

/// What the quality stage and the last stage find, in that order.
pub open spec fn soft_findings(
    contract: Contract,
    rows: Seq<Map<Seq<char>, ValueView>>,
    now: Instant,
) -> Seq<Finding> {
    quality_findings(contract, rows) + custom_findings(contract, rows, now)
}

/// What a run finds in the rows that it validates, at the time `now`.
///
/// Schema findings are errors. In strict mode a schema error ends the run.
/// Constraint findings are errors. In schema-only mode the run ends there,
/// without warnings. The findings of the quality stage and of the last stage
/// are errors in strict mode and warnings otherwise.
pub open spec fn routed(
    contract: Contract,
    rows: Seq<Map<Seq<char>, ValueView>>,
    strict: bool,
    schema_only: bool,
    now: Instant,
) -> Outcome {
    let schema = schema_findings(contract.schema.fields@, rows);
    let hard = schema + constraint_findings(contract.schema.fields@, rows);
    if strict && schema.len() > 0 {
        Outcome { errors: schema, warnings: Seq::empty() }
    } else if schema_only {
        Outcome { errors: hard, warnings: Seq::empty() }
    } else if strict {
        Outcome { errors: hard + soft_findings(contract, rows, now), warnings: Seq::empty() }
    } else {
        Outcome { errors: hard, warnings: soft_findings(contract, rows, now) }
    }
}

/// What a run finds in a dataset under the given options, at the time
/// `now`.
pub open spec fn outcome(
    contract: Contract,
    data: Seq<Map<Seq<char>, ValueView>>,
    context: ValidationContext,
    now: Instant,
) -> Outcome {
    routed(
        contract,
        working_set(data, context.sample_size),
        context.strict,
        context.schema_only,
        now,
    )
}

/// Without a freshness rule a run finds the same at every time.
pub proof fn lemma_outcome_without_freshness(
    contract: Contract,
    data: Seq<Map<Seq<char>, ValueView>>,
    context: ValidationContext,
    now: Instant,
    other_time: Instant,
)
    requires
        !reads_clock(contract),
    ensures
        outcome(contract, data, context, now) == outcome(contract, data, context, other_time),
{
    lemma_time_matters_only_for_freshness(
        contract,
        working_set(data, context.sample_size),
        now,
        other_time,
    );
}

/// Whether a report states an outcome over `records` rows: the messages of
/// the errors and of the warnings in order, and that it passes exactly if
/// there is no error.
pub open spec fn reports(report: ValidationReport, found: Outcome, records: nat) -> bool {
    &&& report.errors.deep_view() == messages(found.errors)
    &&& report.warnings.deep_view() == messages(found.warnings)
    &&& report.passed == (found.errors.len() == 0)
    &&& report.stats.records_validated == records
    &&& report.stats.fields_checked == 0
    &&& report.stats.constraints_evaluated == 0
}

/// The validation engine. Between runs it keeps nothing but the patterns
/// that its constraint stage has compiled.
pub struct DataValidator {
    schema_validator: SchemaValidator,
    constraint_validator: ConstraintValidator,
    quality_validator: QualityValidator,
    custom_validator: CustomValidator,
}

/// A reading of the monotonic clock of the standard library:
/// `std::time::Instant`. Nothing inside it is visible here.
#[verifier::external_type_specification]
#[verifier::external_body]
pub struct ExMonotonicInstant(std::time::Instant);

/// Calls `std::time::Instant::now`: a reading of the monotonic clock.
/// Nothing is known of it.
#[verifier::external_body]
fn start_timer() -> (r: std::time::Instant) {
    std::time::Instant::now()
}

/// Calls `std::time::Instant::elapsed` and takes the whole milliseconds of
/// the time that has passed, cut to 64 bits. Nothing is known of the
/// result.
#[verifier::external_body]
fn elapsed_ms(start: &std::time::Instant) -> (r: u64) {
    start.elapsed().as_millis() as u64
}

impl DataValidator {
    /// The patterns that the engine has compiled and keeps.
    pub closed spec fn compiled(self) -> Set<Seq<char>> {
        self.constraint_validator.compiled()
    }

    /// An engine that has compiled no pattern yet.
    pub fn new() -> (r: DataValidator)
        ensures
            r.compiled() == Set::<Seq<char>>::empty(),
    {
        DataValidator {
            schema_validator: SchemaValidator::new(),
            constraint_validator: ConstraintValidator::new(),
            quality_validator: QualityValidator::new(),
            custom_validator: CustomValidator::new(),
        }
    }

    /// Makes the report of a run from its errors and warnings.
    pub fn build_report(
        &self,
        errors: Vec<String>,
        warnings: Vec<String>,
        dataset: &DataSet,
        duration_ms: u64,
    ) -> (r: ValidationReport)
        ensures
            r.passed == (errors@.len() == 0),
            r.errors == errors,
            r.warnings == warnings,
            r.stats.records_validated == dataset@.len(),
            r.stats.fields_checked == 0,
            r.stats.constraints_evaluated == 0,
            r.stats.duration_ms == duration_ms,
            r.consistent(),
    {
        ValidationReport {
            passed: errors.len() == 0,
            errors,
            warnings,
            stats: ValidationStats {
                records_validated: dataset.len(),
                fields_checked: 0,
                constraints_evaluated: 0,
                duration_ms,
            },
        }
    }

    /// The findings of a run over the rows of `working`, at the time `now`,
    /// routed to errors and warnings.
    fn run_stages(&mut self, contract: &Contract, working: &DataSet, context: &ValidationContext, now: Instant) -> (r: (
        Vec<ValidationError>,
        Vec<ValidationError>,
    ))
        ensures
            findings_of(r.0@) == routed(
                *contract,
                working@,
                context.strict,
                context.schema_only,
                now,
            ).errors,
            findings_of(r.1@) == routed(
                *contract,
                working@,
                context.strict,
                context.schema_only,
                now,
            ).warnings,
            old(self).compiled().subset_of(final(self).compiled()),
    {
        let mut errors = self.schema_validator.validate(contract, working);
        let mut warnings: Vec<ValidationError> = Vec::new();
        if context.strict && errors.len() > 0 {
            return (errors, warnings);
        }
        let mut more = self.constraint_validator.validate(contract, working);
        errors.append(&mut more);
        if context.schema_only {
            return (errors, warnings);
        }
        let mut soft = self.quality_validator.validate(contract, working);
        let mut last = self.custom_validator.validate_at(contract, working, now);
        soft.append(&mut last);
        if context.strict {
            errors.append(&mut soft);
            (errors, warnings)
        } else {
            (errors, soft)
        }
    }

    /// Validates a dataset against a contract as if the time were `now`.
    ///
    /// The report is a function of the contract, the content of the dataset,
    /// the options and `now` alone (but for the time the run took): the
    /// patterns compiled before do not change it, and a second run gives
    /// the same findings. The dataset itself is unchanged.
    pub fn validate_at(
        &mut self,
        contract: &Contract,
        dataset: &DataSet,
        context: &ValidationContext,
        now: Instant,
    ) -> (report: ValidationReport)
        ensures
            reports(
                report,
                outcome(*contract, dataset@, *context, now),
                working_set(dataset@, context.sample_size).len(),
            ),
            report.consistent(),
            old(self).compiled().subset_of(final(self).compiled()),
    {
        let start = start_timer();
        let working = match context.sample_size {
            Some(n) => dataset.sample(n),
            None => dataset.clone(),
        };
        assert(working@ =~= working_set(dataset@, context.sample_size));
        let (errors, warnings) = self.run_stages(contract, &working, context, now);
        let error_lines = render_all(&errors);
        let warning_lines = render_all(&warnings);
        self.build_report(error_lines, warning_lines, &working, elapsed_ms(&start))
    }

    /// Validates a dataset against a contract at the time of the system
    /// clock: the report is what [`Self::validate_at`] gives for some
    /// instant, and for every instant where the contract has no freshness
    /// rule.
    pub fn validate_with_data(
        &mut self,
        contract: &Contract,
        dataset: &DataSet,
        context: &ValidationContext,
    ) -> (report: ValidationReport)
        ensures
            exists|now: Instant| #[trigger]
                reports(
                    report,
                    outcome(*contract, dataset@, *context, now),
                    working_set(dataset@, context.sample_size).len(),
                ),
            report.consistent(),
            context.schema_only ==> report.warnings@.len() == 0,
            report.stats.records_validated == working_set(dataset@, context.sample_size).len(),
            old(self).compiled().subset_of(final(self).compiled()),
            !reads_clock(*contract) ==> forall|now: Instant| #[trigger]
                reports(
                    report,
                    outcome(*contract, dataset@, *context, now),
                    working_set(dataset@, context.sample_size).len(),
                ),
    {
        let now = Instant::now();
        let report = self.validate_at(contract, dataset, context, now);
        assert(report.warnings.deep_view().len() == report.warnings@.len());
        proof {
            if !reads_clock(*contract) {
                assert forall|other: Instant| #[trigger]
                    reports(
                        report,
                        outcome(*contract, dataset@, *context, other),
                        working_set(dataset@, context.sample_size).len(),
                    ) by {
                    lemma_outcome_without_freshness(*contract, dataset@, *context, now, other);
                }
            }
        }
        report
    }

    /// Checks the schema of a contract by itself, without data.
    pub fn validate_definition(&self, contract: &Contract) -> (report: ValidationReport)
        ensures
            report.errors.deep_view() == messages(definition_findings(contract.schema.fields@)),
            report.warnings@.len() == 0,
            report.passed == (definition_findings(contract.schema.fields@).len() == 0),
            report.stats.records_validated == 0,
            report.stats.fields_checked == contract.schema.fields@.len(),
            report.stats.constraints_evaluated == 0,
            report.consistent(),
    {
        let start = start_timer();
        let found = self.schema_validator.validate_schema_definition(contract);
        let errors = render_all(&found);
        ValidationReport {
            passed: errors.len() == 0,
            errors,
            warnings: Vec::new(),
            stats: ValidationStats {
                records_validated: 0,
                fields_checked: contract.schema.fields.len(),
                constraints_evaluated: 0,
                duration_ms: elapsed_ms(&start),
            },
        }
    }
}

impl ContractValidator for DataValidator {
    /// Without data there is nothing to validate: always a success.
    fn validate(&self, contract: &Contract, context: &ValidationContext) -> (r: ValidationResult)
        ensures
            r is Ok,
    {
        Ok(())
    }

    /// Checks the schema of the contract by itself: a success where nothing
    /// is wrong with it, else the messages of what is wrong, joined by `; `.
    fn validate_schema(&self, contract: &Contract, context: &ValidationContext) -> (r:
        ValidationResult)
        ensures
            match r {
                Ok(_) => definition_findings(contract.schema.fields@).len() == 0,
                Err(e) => {
                    &&& definition_findings(contract.schema.fields@).len() > 0
                    &&& e matches ContractError::SchemaValidation(m)
                    &&& m@ == joined(messages(definition_findings(contract.schema.fields@)), "; "@)
                },
            },
    {
        let found = self.schema_validator.validate_schema_definition(contract);
        if found.len() == 0 {
            Ok(())
        } else {
            let lines = render_all(&found);
            Err(ContractError::SchemaValidation(join(&lines, "; ")))
        }
    }
}

impl Default for DataValidator {
    fn default() -> (r: DataValidator) {
        DataValidator::new()
    }
}

} // verus!
