use data_contracts::builder::{ContractBuilder, FieldBuilder};
use data_contracts::contract::{
    CompletenessCheck, Contract, CustomCheck, DataFormat, FieldConstraints, FreshnessCheck,
    QualityChecks, UniquenessCheck,
};
use data_contracts::dataset::{DataRow, DataSet, DataValue};
use data_contracts::decimal::Decimal;
use data_contracts::engine::DataValidator;
use data_contracts::schema::SchemaValidator;
use data_contracts::constraints::ConstraintValidator;
use data_contracts::timing::Instant;
use data_contracts::validation::{ValidationContext, ValidationReport};

fn dec(text: &str) -> Decimal {
    Decimal::parse(text).unwrap()
}

fn row_of(entries: Vec<(&str, DataValue)>) -> DataRow {
    let mut row = DataRow::new();
    for (k, v) in entries {
        row.insert(k.to_string(), v);
    }
    row
}

fn text(s: &str) -> DataValue {
    DataValue::String(s.to_string())
}

fn contract() -> Contract {
    ContractBuilder::new("orders", "team")
        .location("s3://lake/sales/orders")
        .format(DataFormat::Iceberg)
        .field(FieldBuilder::new("id", "string").nullable(false).build())
        .field(
            FieldBuilder::new("status", "string")
                .constraint(FieldConstraints::AllowedValues {
                    values: vec!["open".to_string(), "closed".to_string()],
                })
                .constraint(FieldConstraints::Pattern { regex: "^[a-z]+$".to_string() })
                .build(),
        )
        .field(FieldBuilder::new("at", "timestamp").build())
        .quality_checks(QualityChecks {
            completeness: Some(CompletenessCheck {
                threshold: dec("0.9"),
                fields: vec!["status".to_string()],
            }),
            uniqueness: Some(UniquenessCheck { fields: vec!["id".to_string()], scope: None }),
            freshness: Some(FreshnessCheck { max_delay: "1d".to_string(), metric: "at".to_string() }),
            custom_checks: Some(vec![CustomCheck {
                name: "prose".to_string(),
                definition: "all is well".to_string(),
                severity: None,
            }]),
        })
        .build()
}

const NOW: Instant = Instant { secs: 1_700_000_000, nanos: 0 };

fn clean_rows() -> Vec<DataRow> {
    vec![
        row_of(vec![("id", text("1")), ("status", text("open")), ("at", DataValue::Timestamp("1699990000".to_string()))]),
        row_of(vec![("id", text("2")), ("status", DataValue::Null)]),
        row_of(vec![("id", text("1")), ("status", text("closed"))]),
    ]
}

fn faulty_rows() -> Vec<DataRow> {
    vec![
        row_of(vec![("status", text("open"))]),
        row_of(vec![("id", text("2")), ("status", text("Pending"))]),
        row_of(vec![("id", text("2")), ("status", text("closed")), ("at", DataValue::Timestamp("1600000000".to_string()))]),
        row_of(vec![("id", DataValue::Int(3))]),
    ]
}

const SOFT: [&str; 4] = [
    "Quality check failed: Completeness check failed for field 'status': 66.67% < 90.00% (threshold)",
    "Quality check failed: Uniqueness check failed for fields [id]: found 1 duplicate(s)",
    "Freshness check failed: data is stale by 1d",
    "Custom check 'prose' failed: Custom check definition does not appear to be a SQL query",
];

fn lines(items: &[&str]) -> Vec<String> {
    items.iter().map(|s| s.to_string()).collect()
}

fn all_contexts() -> Vec<ValidationContext> {
    let mut out = Vec::new();
    for strict in [false, true] {
        for schema_only in [false, true] {
            for sample in [None, Some(0), Some(2), Some(100)] {
                let mut c = ValidationContext::new().with_strict(strict).with_schema_only(schema_only);
                if let Some(n) = sample {
                    c = c.with_sample_size(n);
                }
                out.push(c);
            }
        }
    }
    out
}

fn same_findings(a: &ValidationReport, b: &ValidationReport) {
    assert_eq!(a.passed, b.passed);
    assert_eq!(a.errors, b.errors);
    assert_eq!(a.warnings, b.warnings);
    assert_eq!(a.stats.records_validated, b.stats.records_validated);
}

#[test]
fn a_report_passes_exactly_if_it_has_no_errors() {
    let contract = contract();
    for rows in [Vec::new(), clean_rows(), faulty_rows()] {
        let dataset = DataSet::from_rows(rows);
        for context in all_contexts() {
            let mut validator = DataValidator::new();
            let report = validator.validate_at(&contract, &dataset, &context, NOW);
            assert_eq!(report.passed, report.errors.is_empty());
            let report = validator.validate_with_data(&contract, &dataset, &context);
            assert_eq!(report.passed, report.errors.is_empty());
        }
    }
    let report = DataValidator::new().validate_definition(&contract);
    assert!(report.passed && report.errors.is_empty());
}

#[test]
fn a_second_run_gives_the_same_findings() {
    let contract = contract();
    for rows in [clean_rows(), faulty_rows()] {
        let dataset = DataSet::from_rows(rows);
        for context in all_contexts() {
            let mut validator = DataValidator::new();
            let first = validator.validate_at(&contract, &dataset, &context, NOW);
            let second = validator.validate_at(&contract, &dataset, &context, NOW);
            let fresh = DataValidator::new().validate_at(&contract, &dataset, &context, NOW);
            same_findings(&first, &second);
            same_findings(&first, &fresh);
        }
    }
}

#[test]
fn a_sample_size_validates_the_first_rows_only() {
    let contract = contract();
    let dataset = DataSet::from_rows(faulty_rows());
    for n in [0usize, 1, 2, 3, 4, 5, 100] {
        for strict in [false, true] {
            let sampled = ValidationContext::new().with_strict(strict).with_sample_size(n);
            let whole = ValidationContext::new().with_strict(strict);
            let a = DataValidator::new().validate_at(&contract, &dataset, &sampled, NOW);
            let b = DataValidator::new().validate_at(&contract, &dataset.sample(n), &whole, NOW);
            same_findings(&a, &b);
            assert_eq!(a.stats.records_validated, n.min(4));
        }
    }
    assert_eq!(dataset.len(), 4);
    assert_eq!(dataset.sample(2).len(), 2);
    assert_eq!(dataset.sample(2).get_row(1), dataset.get_row(1));
    assert_eq!(dataset.sample(9).len(), 4);
}

#[test]
fn a_missing_key_and_a_null_are_each_reported_once_by_the_schema_stage_alone() {
    let contract = ContractBuilder::new("n", "team")
        .location("l")
        .format(DataFormat::Json)
        .field(
            FieldBuilder::new("code", "string")
                .nullable(false)
                .constraint(FieldConstraints::AllowedValues { values: vec!["a".to_string()] })
                .constraint(FieldConstraints::Range { min: dec("0"), max: dec("1") })
                .constraint(FieldConstraints::Pattern { regex: "[broken(".to_string() })
                .constraint(FieldConstraints::Custom { definition: "x".to_string() })
                .build(),
        )
        .build();
    for row in [DataRow::new(), row_of(vec![("code", DataValue::Null)])] {
        let dataset = DataSet::from_rows(vec![row]);
        assert_eq!(SchemaValidator::new().validate(&contract, &dataset).len(), 1);
        assert_eq!(ConstraintValidator::new().validate(&contract, &dataset).len(), 0);
        let report = DataValidator::new().validate_at(&contract, &dataset, &ValidationContext::new(), NOW);
        assert_eq!(report.errors.len(), 1);
    }
}

#[test]
fn schema_only_mode_gives_no_warnings() {
    let contract = contract();
    let dataset = DataSet::from_rows(clean_rows());
    for strict in [false, true] {
        let context = ValidationContext::new().with_strict(strict).with_schema_only(true);
        let report = DataValidator::new().validate_at(&contract, &dataset, &context, NOW);
        assert!(report.passed);
        assert!(report.errors.is_empty());
        assert!(report.warnings.is_empty());
        assert_eq!(report.stats.records_validated, 3);
    }
    let faulty = DataSet::from_rows(faulty_rows());
    let context = ValidationContext::new().with_schema_only(true);
    let report = DataValidator::new().validate_at(&contract, &faulty, &context, NOW);
    assert_eq!(
        report.errors,
        lines(&[
            "Required field 'id' is missing",
            "Type mismatch for field 'id': expected string, found int64",
            "Constraint violation for field 'status': Value 'Pending' not in allowed values: [open, closed]",
            "Constraint violation for field 'status': Value 'Pending' does not match pattern '^[a-z]+$'",
        ])
    );
    assert!(report.warnings.is_empty());
}

#[test]
fn quality_findings_are_warnings_of_a_lenient_run_and_errors_of_a_strict_run() {
    let contract = contract();
    let dataset = DataSet::from_rows(clean_rows());
    let now = Instant { secs: 1_699_990_000 + 2 * 3600 + 86_400, nanos: 0 };
    let lenient = DataValidator::new().validate_at(&contract, &dataset, &ValidationContext::new(), now);
    assert!(lenient.passed);
    assert!(lenient.errors.is_empty());
    assert_eq!(lenient.warnings, lines(&SOFT));
    let strict =
        DataValidator::new().validate_at(&contract, &dataset, &ValidationContext::new().with_strict(true), now);
    assert!(!strict.passed);
    assert_eq!(strict.errors, lenient.warnings);
    assert!(strict.warnings.is_empty());
}

#[test]
fn a_strict_run_ends_at_a_schema_error() {
    let contract = contract();
    let dataset = DataSet::from_rows(faulty_rows());
    let strict =
        DataValidator::new().validate_at(&contract, &dataset, &ValidationContext::new().with_strict(true), NOW);
    assert_eq!(
        strict.errors,
        lines(&[
            "Required field 'id' is missing",
            "Type mismatch for field 'id': expected string, found int64",
        ])
    );
    assert!(strict.warnings.is_empty());
    assert_eq!(strict.stats.records_validated, 4);
    let lenient = DataValidator::new().validate_at(&contract, &dataset, &ValidationContext::new(), NOW);
    assert_eq!(lenient.errors.len(), 4);
    assert_eq!(lenient.warnings.len(), 4);
    assert!(!lenient.passed);
}

#[test]
fn the_dataset_is_unchanged_by_a_run() {
    let contract = contract();
    let dataset = DataSet::from_rows(faulty_rows());
    let before = dataset.clone();
    let context = ValidationContext::new().with_sample_size(2);
    DataValidator::new().validate_with_data(&contract, &dataset, &context);
    assert_eq!(dataset.len(), before.len());
    for i in 0..dataset.len() {
        assert_eq!(dataset.get_row(i), before.get_row(i));
    }
}

#[test]
fn report_building_blocks() {
    let mut report = ValidationReport::success();
    assert!(report.passed && report.errors.is_empty() && report.warnings.is_empty());
    report.add_warning("careful");
    assert!(report.passed);
    assert_eq!(report.warnings, vec!["careful".to_string()]);
    report.add_error("broken");
    assert!(!report.passed);
    assert_eq!(report.errors, vec!["broken".to_string()]);
    let failed = ValidationReport::failure("no");
    assert!(!failed.passed);
    assert_eq!(failed.errors, vec!["no".to_string()]);
    assert_eq!(failed.stats.records_validated, 0);
    let context = ValidationContext::new()
        .with_metadata("env", "test")
        .with_metadata("env", "prod")
        .with_metadata("run", "7");
    assert_eq!(context.metadata.get("env"), Some(&"prod".to_string()));
    assert_eq!(context.metadata.get("run"), Some(&"7".to_string()));
    assert_eq!(context.metadata.get("none"), None);
    assert!(!context.strict && !context.schema_only && context.sample_size.is_none());
}
