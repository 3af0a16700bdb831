use data_contracts::report::{report_document, text_report, LineKind, ReportLine};
use data_contracts::{
    ContractBuilder, ContractError, ContractValidator, DataFormat, DataRow, DataSet, DataValidator,
    DataValue, Decimal, FieldBuilder, ValidationContext, ValidationReport, ValidationStats,
};

fn plain(lines: &[ReportLine]) -> Vec<String> {
    lines
        .iter()
        .map(|l| match l.kind {
            LineKind::Passed | LineKind::Failed => format!("{} {}", l.label, l.text),
            _ => format!("{}{}", l.label, l.text),
        })
        .collect()
}

#[test]
fn listing_of_a_report_that_passed() {
    let report = ValidationReport::success();
    let lines = text_report(&report);
    let rule = "═".repeat(60);
    assert_eq!(
        plain(&lines),
        vec![
            "".to_string(),
            rule.clone(),
            "  VALIDATION REPORT".to_string(),
            rule.clone(),
            "".to_string(),
            "✓ Validation PASSED".to_string(),
            "".to_string(),
            "Summary:".to_string(),
            "  Total errors:   0".to_string(),
            "  Total warnings: 0".to_string(),
            rule,
        ]
    );
    let kinds: Vec<LineKind> = lines.iter().map(|l| l.kind).collect();
    assert_eq!(
        kinds,
        vec![
            LineKind::Blank,
            LineKind::Rule,
            LineKind::Title,
            LineKind::Rule,
            LineKind::Blank,
            LineKind::Passed,
            LineKind::Blank,
            LineKind::SummaryHeading,
            LineKind::Count,
            LineKind::Count,
            LineKind::Rule,
        ]
    );
}

#[test]
fn listing_of_a_report_that_failed() {
    let mut report = ValidationReport::failure("first");
    for i in 2..=11 {
        report.add_error(&format!("error {}", i));
    }
    report.add_warning("careful");
    let lines = text_report(&report);
    let text = plain(&lines);
    assert_eq!(text[5], "✗ Validation FAILED");
    assert_eq!(text[6], "");
    assert_eq!(text[7], "Errors:");
    assert_eq!(text[8], "  1. first");
    assert_eq!(text[9], "  2. error 2");
    assert_eq!(text[18], "  11. error 11");
    assert_eq!(text[19], "");
    assert_eq!(text[20], "Warnings:");
    assert_eq!(text[21], "  1. careful");
    assert_eq!(text[22], "");
    assert_eq!(text[23], "Summary:");
    assert_eq!(text[24], "  Total errors:   11");
    assert_eq!(text[25], "  Total warnings: 1");
    assert_eq!(text.len(), 27);
    assert_eq!(lines[8].kind, LineKind::ErrorItem);
    assert_eq!(lines[8].label, "  1. ");
    assert_eq!(lines[8].text, "first");
    assert_eq!(lines[21].kind, LineKind::WarningItem);
    assert_eq!(lines[7].kind, LineKind::ErrorsHeading);
    assert_eq!(lines[20].kind, LineKind::WarningsHeading);
    assert_eq!(lines[5].kind, LineKind::Failed);
}

#[test]
fn document_of_a_report() {
    let mut report = ValidationReport::failure("broken");
    report.add_warning("careful");
    report.add_warning("slow");
    let document = report_document(&report);
    assert!(!document.passed);
    assert_eq!(document.errors, vec!["broken".to_string()]);
    assert_eq!(document.warnings, vec!["careful".to_string(), "slow".to_string()]);
    assert_eq!(document.summary.error_count, 1);
    assert_eq!(document.summary.warning_count, 2);
    assert_eq!(
        ValidationStats::default(),
        ValidationStats { records_validated: 0, fields_checked: 0, constraints_evaluated: 0, duration_ms: 0 }
    );
}

#[test]
fn the_engine_as_a_contract_validator() {
    let validator = DataValidator::new();
    let context = ValidationContext::new();
    let good = ContractBuilder::new("c", "o")
        .location("l")
        .format(DataFormat::Csv)
        .field(FieldBuilder::new("a", "string").build())
        .build();
    assert!(validator.validate(&good, &context).is_ok());
    assert!(validator.validate_schema(&good, &context).is_ok());
    assert!(validator.validate_quality(&good, &context).is_ok());
    assert!(validator.validate_sla(&good, &context).is_ok());
    let bad = ContractBuilder::new("c", "o")
        .location("l")
        .format(DataFormat::Csv)
        .field(FieldBuilder::new("a", "string").build())
        .field(FieldBuilder::new("a", "string").build())
        .field(FieldBuilder::new("a", "string").build())
        .build();
    match validator.validate_schema(&bad, &context) {
        Err(ContractError::SchemaValidation(message)) => assert_eq!(
            message,
            "Schema validation failed: Duplicate field name: a; Schema validation failed: Duplicate field name: a"
        ),
        other => panic!("unexpected {:?}", other),
    }
    let empty = ContractBuilder::new("c", "o").location("l").format(DataFormat::Csv).build();
    match validator.validate_schema(&empty, &context) {
        Err(ContractError::SchemaValidation(message)) => {
            assert_eq!(message, "Schema validation failed: Schema has no fields defined")
        }
        other => panic!("unexpected {:?}", other),
    }
}

#[test]
fn rows_and_values() {
    let mut row = DataRow::new();
    assert!(row.is_empty());
    assert_eq!(row.insert("a".to_string(), DataValue::from(1i64)), None);
    assert_eq!(row.insert("b".to_string(), DataValue::from(true)), None);
    assert_eq!(row.insert("a".to_string(), DataValue::from("x".to_string())), Some(DataValue::Int(1)));
    assert_eq!(row.len(), 2);
    assert!(row.contains_key("a") && row.contains_key("b") && !row.contains_key("c"));
    assert_eq!(row.get("a"), Some(&DataValue::String("x".to_string())));
    assert_eq!(row.get("c"), None);
    let number = DataValue::from(Decimal::parse("2.50").unwrap());
    assert_eq!(number.as_float(), Decimal::new(25, 1));
    assert_eq!(number.as_int(), None);
    assert_eq!(DataValue::Bool(true).as_bool(), Some(true));
    assert_eq!(DataValue::Timestamp("t".to_string()).as_timestamp(), Some("t"));
    assert_eq!(DataValue::Timestamp("t".to_string()).as_string(), None);
    assert!(DataValue::Null.is_null() && !DataValue::Int(0).is_null());
    assert_eq!(DataValue::Timestamp("t".to_string()).type_label(), "timestamp");
    assert_eq!(DataValue::Mapping(DataRow::new()).type_label(), "map");
    assert_eq!(DataValue::List(vec![]).type_label(), "list");
    let nested = DataValue::List(vec![DataValue::Mapping(row.clone()), DataValue::Null]);
    assert_eq!(nested.clone(), nested);
    let mut dataset = DataSet::default();
    dataset.add_row(row.clone());
    dataset.add_row(DataRow::new());
    assert_eq!(dataset.rows().len(), 2);
    dataset.rows_mut().pop();
    dataset.rows_mut()[0].insert("z".to_string(), DataValue::Null);
    assert_eq!(dataset.len(), 1);
    assert_eq!(dataset.get_row(0).unwrap().len(), 3);
    assert_eq!(dataset.get_row(1), None);
    assert_eq!(dataset.clone().get_row(0), dataset.get_row(0));
}

#[test]
fn rows_are_equal_whatever_the_order_of_their_fields() {
    let mut a = DataRow::new();
    a.insert("x".to_string(), DataValue::Int(1));
    a.insert("y".to_string(), DataValue::List(vec![DataValue::Null, DataValue::Bool(false)]));
    let mut b = DataRow::new();
    b.insert("y".to_string(), DataValue::List(vec![DataValue::Null, DataValue::Bool(false)]));
    b.insert("x".to_string(), DataValue::Int(1));
    assert_eq!(a, b);
    assert_eq!(DataValue::Mapping(a.clone()), DataValue::Mapping(b.clone()));
    let mut c = b.clone();
    c.insert("x".to_string(), DataValue::Int(2));
    assert_ne!(a, c);
    let mut d = b.clone();
    d.insert("z".to_string(), DataValue::Null);
    assert_ne!(a, d);
    assert_ne!(d, a);
    let mut e = DataRow::new();
    e.insert("x".to_string(), DataValue::Int(1));
    e.insert("w".to_string(), DataValue::List(vec![DataValue::Null, DataValue::Bool(false)]));
    assert_ne!(a, e);
    assert_ne!(DataValue::List(vec![DataValue::Null]), DataValue::List(vec![]));
    assert_ne!(DataValue::List(vec![DataValue::Int(1)]), DataValue::List(vec![DataValue::Int(2)]));
    assert_ne!(DataValue::Int(1), DataValue::Float(Decimal::from_int(1)));
    assert_ne!(DataValue::String("t".to_string()), DataValue::Timestamp("t".to_string()));
    assert_eq!(
        DataValue::Float(Decimal::parse("1.50").unwrap()),
        DataValue::Float(Decimal::parse("1.5").unwrap())
    );
    assert_eq!(DataValue::Null, DataValue::Null);
    assert_ne!(DataValue::Null, DataValue::Bool(false));
}
