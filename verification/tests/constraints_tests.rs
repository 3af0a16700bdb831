use data_contracts::builder::{ContractBuilder, FieldBuilder};
use data_contracts::constraints::ConstraintValidator;
use data_contracts::contract::{DataFormat, FieldConstraints};
use data_contracts::dataset::{DataRow, DataSet, DataValue};
use data_contracts::decimal::Decimal;
use data_contracts::error::ValidationError;

fn dec(text: &str) -> Decimal {
    Decimal::parse(text).unwrap()
}

#[test]
fn test_allowed_values_valid() {
    let contract = ContractBuilder::new("test", "owner")
        .location("s3://test")
        .format(DataFormat::Iceberg)
        .field(
            FieldBuilder::new("status", "string")
                .nullable(false)
                .constraint(FieldConstraints::AllowedValues {
                    values: vec!["active".to_string(), "inactive".to_string()],
                })
                .build(),
        )
        .build();

    let mut row = DataRow::new();
    row.insert(
        "status".to_string(),
        DataValue::String("active".to_string()),
    );

    let dataset = DataSet::from_rows(vec![row]);
    let mut validator = ConstraintValidator::new();

    let errors = validator.validate(&contract, &dataset);
    assert_eq!(errors.len(), 0);
}

#[test]
fn test_allowed_values_invalid() {
    let contract = ContractBuilder::new("test", "owner")
        .location("s3://test")
        .format(DataFormat::Iceberg)
        .field(
            FieldBuilder::new("status", "string")
                .nullable(false)
                .constraint(FieldConstraints::AllowedValues {
                    values: vec!["active".to_string(), "inactive".to_string()],
                })
                .build(),
        )
        .build();

    let mut row = DataRow::new();
    row.insert(
        "status".to_string(),
        DataValue::String("pending".to_string()),
    );

    let dataset = DataSet::from_rows(vec![row]);
    let mut validator = ConstraintValidator::new();

    let errors = validator.validate(&contract, &dataset);
    assert_eq!(errors.len(), 1);
    assert!(matches!(
        errors[0],
        ValidationError::ConstraintViolation { .. }
    ));
}

#[test]
fn test_range_valid() {
    let contract = ContractBuilder::new("test", "owner")
        .location("s3://test")
        .format(DataFormat::Iceberg)
        .field(
            FieldBuilder::new("age", "int64")
                .nullable(false)
                .constraint(FieldConstraints::Range {
                    min: dec("0.0"),
                    max: dec("120.0"),
                })
                .build(),
        )
        .build();

    let mut row = DataRow::new();
    row.insert("age".to_string(), DataValue::Int(25));

    let dataset = DataSet::from_rows(vec![row]);
    let mut validator = ConstraintValidator::new();

    let errors = validator.validate(&contract, &dataset);
    assert_eq!(errors.len(), 0);
}

#[test]
fn test_range_invalid() {
    let contract = ContractBuilder::new("test", "owner")
        .location("s3://test")
        .format(DataFormat::Iceberg)
        .field(
            FieldBuilder::new("age", "int64")
                .nullable(false)
                .constraint(FieldConstraints::Range {
                    min: dec("0.0"),
                    max: dec("120.0"),
                })
                .build(),
        )
        .build();

    let mut row = DataRow::new();
    row.insert("age".to_string(), DataValue::Int(150));

    let dataset = DataSet::from_rows(vec![row]);
    let mut validator = ConstraintValidator::new();

    let errors = validator.validate(&contract, &dataset);
    assert_eq!(errors.len(), 1);
    assert!(matches!(
        errors[0],
        ValidationError::ConstraintViolation { .. }
    ));
}

#[test]
fn test_pattern_valid() {
    let contract = ContractBuilder::new("test", "owner")
        .location("s3://test")
        .format(DataFormat::Iceberg)
        .field(
            FieldBuilder::new("url", "string")
                .nullable(false)
                .constraint(FieldConstraints::Pattern {
                    regex: r"^https?://.*".to_string(),
                })
                .build(),
        )
        .build();

    let mut row = DataRow::new();
    row.insert(
        "url".to_string(),
        DataValue::String("https://example.com".to_string()),
    );

    let dataset = DataSet::from_rows(vec![row]);
    let mut validator = ConstraintValidator::new();

    let errors = validator.validate(&contract, &dataset);
    assert_eq!(errors.len(), 0);
}

#[test]
fn test_pattern_invalid() {
    let contract = ContractBuilder::new("test", "owner")
        .location("s3://test")
        .format(DataFormat::Iceberg)
        .field(
            FieldBuilder::new("url", "string")
                .nullable(false)
                .constraint(FieldConstraints::Pattern {
                    regex: r"^https?://.*".to_string(),
                })
                .build(),
        )
        .build();

    let mut row = DataRow::new();
    row.insert(
        "url".to_string(),
        DataValue::String("not-a-url".to_string()),
    );

    let dataset = DataSet::from_rows(vec![row]);
    let mut validator = ConstraintValidator::new();

    let errors = validator.validate(&contract, &dataset);
    assert_eq!(errors.len(), 1);
    assert!(matches!(
        errors[0],
        ValidationError::ConstraintViolation { .. }
    ));
}

#[test]
fn test_invalid_regex() {
    let contract = ContractBuilder::new("test", "owner")
        .location("s3://test")
        .format(DataFormat::Iceberg)
        .field(
            FieldBuilder::new("test", "string")
                .nullable(false)
                .constraint(FieldConstraints::Pattern {
                    regex: "[invalid(regex".to_string(),
                })
                .build(),
        )
        .build();

    let mut row = DataRow::new();
    row.insert("test".to_string(), DataValue::String("test".to_string()));

    let dataset = DataSet::from_rows(vec![row]);
    let mut validator = ConstraintValidator::new();

    let errors = validator.validate(&contract, &dataset);
    assert_eq!(errors.len(), 1);
    assert!(matches!(errors[0], ValidationError::InvalidRegex { .. }));
}

#[test]
fn test_multiple_constraints() {
    let contract = ContractBuilder::new("test", "owner")
        .location("s3://test")
        .format(DataFormat::Iceberg)
        .field(
            FieldBuilder::new("status", "string")
                .nullable(false)
                .constraint(FieldConstraints::AllowedValues {
                    values: vec!["active".to_string(), "inactive".to_string()],
                })
                .constraint(FieldConstraints::Pattern {
                    regex: r"^[a-z]+$".to_string(),
                })
                .build(),
        )
        .build();

    let mut row = DataRow::new();
    row.insert(
        "status".to_string(),
        DataValue::String("active".to_string()),
    );

    let dataset = DataSet::from_rows(vec![row]);
    let mut validator = ConstraintValidator::new();

    let errors = validator.validate(&contract, &dataset);
    assert_eq!(errors.len(), 0);
}

#[test]
fn test_null_values_skipped() {
    let contract = ContractBuilder::new("test", "owner")
        .location("s3://test")
        .format(DataFormat::Iceberg)
        .field(
            FieldBuilder::new("status", "string")
                .nullable(true)
                .constraint(FieldConstraints::AllowedValues {
                    values: vec!["active".to_string()],
                })
                .build(),
        )
        .build();

    let mut row = DataRow::new();
    row.insert("status".to_string(), DataValue::Null);

    let dataset = DataSet::from_rows(vec![row]);
    let mut validator = ConstraintValidator::new();

    let errors = validator.validate(&contract, &dataset);
    assert_eq!(errors.len(), 0); // Null values skip constraint checks
}
