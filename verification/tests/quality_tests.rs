use data_contracts::builder::{ContractBuilder, FieldBuilder};
use data_contracts::contract::{CompletenessCheck, DataFormat, QualityChecks, UniquenessCheck};
use data_contracts::dataset::{DataRow, DataSet, DataValue};
use data_contracts::decimal::Decimal;
use data_contracts::error::ValidationError;
use data_contracts::quality::QualityValidator;

fn dec(text: &str) -> Decimal {
    Decimal::parse(text).unwrap()
}

#[test]
fn test_completeness_pass() {
    let contract = ContractBuilder::new("test", "owner")
        .location("s3://test")
        .format(DataFormat::Iceberg)
        .field(FieldBuilder::new("id", "string").nullable(true).build())
        .quality_checks(QualityChecks {
            completeness: Some(CompletenessCheck {
                threshold: dec("0.8"),
                fields: vec!["id".to_string()],
            }),
            uniqueness: None,
            freshness: None,
            custom_checks: None,
        })
        .build();

    let mut rows = Vec::new();
    for i in 0..10 {
        let mut row = DataRow::new();
        if i < 9 {
            // 90% completeness
            row.insert("id".to_string(), DataValue::String(i.to_string()));
        } else {
            row.insert("id".to_string(), DataValue::Null);
        }
        rows.push(row);
    }

    let dataset = DataSet::from_rows(rows);
    let validator = QualityValidator::new();

    let errors = validator.validate(&contract, &dataset);
    assert_eq!(errors.len(), 0, "Expected no errors, got: {:?}", errors);
}

#[test]
fn test_completeness_fail() {
    let contract = ContractBuilder::new("test", "owner")
        .location("s3://test")
        .format(DataFormat::Iceberg)
        .field(FieldBuilder::new("id", "string").nullable(true).build())
        .quality_checks(QualityChecks {
            completeness: Some(CompletenessCheck {
                threshold: dec("0.95"),
                fields: vec!["id".to_string()],
            }),
            uniqueness: None,
            freshness: None,
            custom_checks: None,
        })
        .build();

    let mut rows = Vec::new();
    for i in 0..10 {
        let mut row = DataRow::new();
        if i < 9 {
            // 90% completeness
            row.insert("id".to_string(), DataValue::String(i.to_string()));
        } else {
            row.insert("id".to_string(), DataValue::Null);
        }
        rows.push(row);
    }

    let dataset = DataSet::from_rows(rows);
    let validator = QualityValidator::new();

    let errors = validator.validate(&contract, &dataset);
    assert_eq!(errors.len(), 1);
    assert!(matches!(errors[0], ValidationError::QualityCheckFailed(_)));
}

#[test]
fn test_uniqueness_pass() {
    let contract = ContractBuilder::new("test", "owner")
        .location("s3://test")
        .format(DataFormat::Iceberg)
        .field(FieldBuilder::new("id", "string").nullable(false).build())
        .quality_checks(QualityChecks {
            completeness: None,
            uniqueness: Some(UniquenessCheck {
                fields: vec!["id".to_string()],
                scope: None,
            }),
            freshness: None,
            custom_checks: None,
        })
        .build();

    let mut rows = Vec::new();
    for i in 0..5 {
        let mut row = DataRow::new();
        row.insert("id".to_string(), DataValue::String(i.to_string()));
        rows.push(row);
    }

    let dataset = DataSet::from_rows(rows);
    let validator = QualityValidator::new();

    let errors = validator.validate(&contract, &dataset);
    assert_eq!(errors.len(), 0);
}

#[test]
fn test_uniqueness_fail() {
    let contract = ContractBuilder::new("test", "owner")
        .location("s3://test")
        .format(DataFormat::Iceberg)
        .field(FieldBuilder::new("id", "string").nullable(false).build())
        .quality_checks(QualityChecks {
            completeness: None,
            uniqueness: Some(UniquenessCheck {
                fields: vec!["id".to_string()],
                scope: None,
            }),
            freshness: None,
            custom_checks: None,
        })
        .build();

    let mut rows = Vec::new();
    for i in 0..5 {
        let mut row = DataRow::new();
        row.insert("id".to_string(), DataValue::String((i % 3).to_string()));
        rows.push(row);
    }

    let dataset = DataSet::from_rows(rows);
    let validator = QualityValidator::new();

    let errors = validator.validate(&contract, &dataset);
    assert_eq!(errors.len(), 1);
    assert!(matches!(errors[0], ValidationError::QualityCheckFailed(_)));
}

#[test]
fn test_composite_uniqueness() {
    let contract = ContractBuilder::new("test", "owner")
        .location("s3://test")
        .format(DataFormat::Iceberg)
        .field(
            FieldBuilder::new("user_id", "string")
                .nullable(false)
                .build(),
        )
        .field(
            FieldBuilder::new("event_id", "string")
                .nullable(false)
                .build(),
        )
        .quality_checks(QualityChecks {
            completeness: None,
            uniqueness: Some(UniquenessCheck {
                fields: vec!["user_id".to_string(), "event_id".to_string()],
                scope: None,
            }),
            freshness: None,
            custom_checks: None,
        })
        .build();

    let mut rows = Vec::new();

    // Add unique combinations
    let mut row1 = DataRow::new();
    row1.insert("user_id".to_string(), DataValue::String("u1".to_string()));
    row1.insert("event_id".to_string(), DataValue::String("e1".to_string()));
    rows.push(row1);

    let mut row2 = DataRow::new();
    row2.insert("user_id".to_string(), DataValue::String("u1".to_string()));
    row2.insert("event_id".to_string(), DataValue::String("e2".to_string()));
    rows.push(row2);

    let dataset = DataSet::from_rows(rows);
    let validator = QualityValidator::new();

    let errors = validator.validate(&contract, &dataset);
    assert_eq!(errors.len(), 0);
}

#[test]
fn test_empty_dataset_no_quality_checks() {
    let contract = ContractBuilder::new("test", "owner")
        .location("s3://test")
        .format(DataFormat::Iceberg)
        .field(FieldBuilder::new("id", "string").nullable(false).build())
        .quality_checks(QualityChecks {
            completeness: Some(CompletenessCheck {
                threshold: dec("0.99"),
                fields: vec!["id".to_string()],
            }),
            uniqueness: None,
            freshness: None,
            custom_checks: None,
        })
        .build();

    let dataset = DataSet::empty();
    let validator = QualityValidator::new();

    let errors = validator.validate(&contract, &dataset);
    assert_eq!(errors.len(), 0); // Empty dataset skips quality checks
}

#[test]
fn test_multiple_fields_completeness() {
    let contract = ContractBuilder::new("test", "owner")
        .location("s3://test")
        .format(DataFormat::Iceberg)
        .field(FieldBuilder::new("id", "string").nullable(true).build())
        .field(FieldBuilder::new("name", "string").nullable(true).build())
        .quality_checks(QualityChecks {
            completeness: Some(CompletenessCheck {
                threshold: dec("0.9"),
                fields: vec!["id".to_string(), "name".to_string()],
            }),
            uniqueness: None,
            freshness: None,
            custom_checks: None,
        })
        .build();

    let mut rows = Vec::new();
    for i in 0..10 {
        let mut row = DataRow::new();
        row.insert("id".to_string(), DataValue::String(i.to_string()));
        if i < 8 {
            // 80% completeness for name - should fail
            row.insert("name".to_string(), DataValue::String(format!("name{}", i)));
        } else {
            row.insert("name".to_string(), DataValue::Null);
        }
        rows.push(row);
    }

    let dataset = DataSet::from_rows(rows);
    let validator = QualityValidator::new();

    let errors = validator.validate(&contract, &dataset);
    assert_eq!(errors.len(), 1); // Only name field should fail
}
