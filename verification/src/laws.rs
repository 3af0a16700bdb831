//! Laws of the engine, proved from the definitions that the contracts of
//! the validators use.

use vstd::prelude::*;
use crate::constraints::{constraint_findings, declared,
    field_constraint_findings, row_constraint_findings};
use crate::contract::{Contract, Field, FieldConstraints};
use crate::dataset::ValueView;
use crate::engine::{outcome, reports, soft_findings, working_set, Outcome};
use crate::error::{messages, optional, Finding};
use crate::schema::{field_finding, row_findings, schema_findings};
use crate::timing::Instant;
use crate::validation::{ValidationContext, ValidationReport};

verus! {

/// A report that states an outcome passes exactly if it lists no error.
pub proof fn lemma_passed_iff_no_errors(report: ValidationReport, found: Outcome, records: nat)
    requires
        reports(report, found, records),
    ensures
        report.passed == (report.errors@.len() == 0),
        report.consistent(),
{
    assert(report.errors.deep_view().len() == report.errors@.len());
}

/// Two runs on the same contract, the same data and the same options at the
/// same time give the same errors, the same warnings and the same verdict,
/// whatever the engine had compiled before each.
pub proof fn lemma_rerun_gives_same_findings(
    first: ValidationReport,
    second: ValidationReport,
    contract: Contract,
    data: Seq<Map<Seq<char>, ValueView>>,
    context: ValidationContext,
    now: Instant,
)
    requires
        reports(
            first,
            outcome(contract, data, context, now),
            working_set(data, context.sample_size).len(),
        ),
        reports(
            second,
            outcome(contract, data, context, now),
            working_set(data, context.sample_size).len(),
        ),
    ensures
        first.errors.deep_view() == second.errors.deep_view(),
        first.warnings.deep_view() == second.warnings.deep_view(),
        first.passed == second.passed,
        first.stats.records_validated == second.stats.records_validated,
{
}

/// The options `context` with the sample size taken out.
pub open spec fn unsampled(context: ValidationContext) -> ValidationContext {
    ValidationContext {
        strict: context.strict,
        schema_only: context.schema_only,
        sample_size: None,
        metadata: context.metadata,
    }
}

/// The first `n` rows of a dataset, or all of them where there are fewer.
pub open spec fn sample_of(
    data: Seq<Map<Seq<char>, ValueView>>,
    n: usize,
) -> Seq<Map<Seq<char>, ValueView>> {
    data.take(
        if n <= data.len() {
            n as int
        } else {
            data.len() as int
        },
    )
}

/// A run with a sample size of `n` validates the smaller of `n` and the
/// number of rows, and finds what a run without a sample size finds in the
/// sample of `n` rows.
pub proof fn lemma_sampling(
    contract: Contract,
    data: Seq<Map<Seq<char>, ValueView>>,
    context: ValidationContext,
    n: usize,
    now: Instant,
)
    requires
        context.sample_size == Some(n),
    ensures
        working_set(data, context.sample_size).len() == if n <= data.len() {
            n as nat
        } else {
            data.len()
        },
        working_set(data, context.sample_size) == sample_of(data, n),
        outcome(contract, data, context, now) == outcome(
            contract,
            sample_of(data, n),
            unsampled(context),
            now,
        ),
{
}

/// No constraint of a field finds anything in a row that lacks the field or
/// holds it as null.
pub proof fn lemma_constraints_pass_over_nulls(
    field: Field,
    constraints: Seq<FieldConstraints>,
    row: Map<Seq<char>, ValueView>,
)
    requires
        !row.contains_key(field.name@) || row[field.name@] is Null,
    ensures
        field_constraint_findings(field, constraints, row).len() == 0,
    decreases constraints.len(),
{
    if constraints.len() > 0 {
        lemma_constraints_pass_over_nulls(field, constraints.drop_last(), row);
    }
}

/// For a field that may not be null, a row that lacks the field and a row
/// that holds it as null each give exactly one schema finding and no
/// constraint finding, whatever constraints the field declares.
pub proof fn lemma_null_is_reported_once(field: Field, row: Map<Seq<char>, ValueView>, row_idx: nat)
    requires
        !field.nullable,
        !row.contains_key(field.name@) || row[field.name@] is Null,
    ensures
        optional(field_finding(field, row, row_idx)).len() == 1,
        !row.contains_key(field.name@) ==> field_finding(field, row, row_idx) == Some(
            Finding::MissingField(field.name@),
        ),
        row.contains_key(field.name@) ==> field_finding(field, row, row_idx) == Some(
            Finding::NullConstraintViolation { field: field.name@, row: Some(row_idx) },
        ),
        field_constraint_findings(field, declared(field), row).len() == 0,
        schema_findings(seq![field], seq![row]).len() == 1,
        constraint_findings(seq![field], seq![row]).len() == 0,
{
    lemma_constraints_pass_over_nulls(field, declared(field), row);
    let fields = seq![field];
    let data = seq![row];
    assert(row_findings(fields.drop_last(), row, 0).len() == 0);
    assert(schema_findings(fields, data.drop_last()).len() == 0);
    assert(row_constraint_findings(fields.drop_last(), row).len() == 0);
    assert(constraint_findings(fields, data.drop_last()).len() == 0);
}

/// In schema-only mode a run gives no warnings, and what it finds does not
/// depend on the quality rules' findings nor on the time: its errors are
/// the schema findings, followed by the constraint findings unless strict
/// mode ended the run at a schema error.
pub proof fn lemma_schema_only(
    contract: Contract,
    data: Seq<Map<Seq<char>, ValueView>>,
    context: ValidationContext,
    now: Instant,
    other_time: Instant,
)
    requires
        context.schema_only,
    ensures
        outcome(contract, data, context, now).warnings.len() == 0,
        outcome(contract, data, context, now) == outcome(contract, data, context, other_time),
        outcome(contract, data, context, now).errors == {
            let rows = working_set(data, context.sample_size);
            let schema = schema_findings(contract.schema.fields@, rows);
            if context.strict && schema.len() > 0 {
                schema
            } else {
                schema + constraint_findings(contract.schema.fields@, rows)
            }
        },
{
}

/// Where the schema stage and the constraint stage find nothing, the
/// findings of the quality stage and of the last stage are warnings of a
/// lenient run, which passes, and the same findings are the errors of a
/// strict run, which fails if there is one.
pub proof fn lemma_strict_escalation(
    contract: Contract,
    data: Seq<Map<Seq<char>, ValueView>>,
    lenient: ValidationContext,
    strict: ValidationContext,
    now: Instant,
)
    requires
        !lenient.strict,
        strict.strict,
        !lenient.schema_only,
        !strict.schema_only,
        lenient.sample_size == strict.sample_size,
        schema_findings(contract.schema.fields@, working_set(data, lenient.sample_size)).len()
            == 0,
        constraint_findings(contract.schema.fields@, working_set(data, lenient.sample_size)).len()
            == 0,
    ensures
        outcome(contract, data, lenient, now).errors.len() == 0,
        outcome(contract, data, lenient, now).warnings == soft_findings(
            contract,
            working_set(data, lenient.sample_size),
            now,
        ),
        outcome(contract, data, strict, now).errors == outcome(
            contract,
            data,
            lenient,
            now,
        ).warnings,
        outcome(contract, data, strict, now).warnings.len() == 0,
        messages(outcome(contract, data, strict, now).errors) == messages(
            outcome(contract, data, lenient, now).warnings,
        ),
{
}

} // verus!
