//! The data contract: schema, field constraints, quality rules and service
//! level of a dataset.

use vstd::prelude::*;
use crate::decimal::Decimal;

verus! {

/// A data contract: what a dataset holds and what is asked of it.
#[derive(Debug, Clone)]
pub struct Contract {
    /// Semantic version of the contract, such as `1.0.0`.
    pub version: String,
    /// The name that identifies the contract.
    pub name: String,
    /// Who answers for the contract.
    pub owner: String,
    /// What the dataset is, in words.
    pub description: Option<String>,
    /// The fields, the format and the location of the data.
    pub schema: Schema,
    /// The quality rules, if any.
    pub quality_checks: Option<QualityChecks>,
    /// The service level, if any.
    pub sla: Option<SLA>,
}

/// The storage or table format of a dataset.
#[derive(Debug, Clone)]
pub enum DataFormat {
    /// Apache Iceberg tables.
    Iceberg,
    /// Apache Parquet files.
    Parquet,
    /// JSON.
    Json,
    /// CSV.
    Csv,
    /// Apache Avro.
    Avro,
    /// Apache ORC.
    Orc,
    /// Delta Lake tables.
    Delta,
    /// Apache Hudi tables.
    Hudi,
    /// Another format, by its name.
    Custom(String),
}

/// The structure of a dataset.
#[derive(Debug, Clone)]
pub struct Schema {
    /// The fields, in order.
    pub fields: Vec<Field>,
    /// The format of the data.
    pub format: DataFormat,
    /// Where the data lies.
    pub location: String,
}

/// One field of a schema.
#[derive(Debug, Clone)]
pub struct Field {
    /// The field's name.
    pub name: String,
    /// The name of the field's type, such as `string` or `int64`.
    pub field_type: String,
    /// Whether the field may be null or absent.
    pub nullable: bool,
    /// What the field is, in words.
    pub description: Option<String>,
    /// Free-form tags.
    pub tags: Option<Vec<String>>,
    /// The constraints on the field's values.
    pub constraints: Option<Vec<FieldConstraints>>,
}

/// A constraint on the values of one field.
#[derive(Debug, Clone)]
pub enum FieldConstraints {
    /// The value is one of a list.
    AllowedValues { values: Vec<String> },
    /// The value is a number between two bounds, both included.
    Range { min: Decimal, max: Decimal },
    /// The value is a string that a regular expression matches.
    Pattern { regex: String },
    /// A constraint in a language of the user's own, never evaluated here.
    Custom { definition: String },
}

/// The quality rules of a contract.
#[derive(Debug, Clone)]
pub struct QualityChecks {
    /// How much of some fields must be present.
    pub completeness: Option<CompletenessCheck>,
    /// Which fields together identify a row.
    pub uniqueness: Option<UniquenessCheck>,
    /// How old the newest record may be.
    pub freshness: Option<FreshnessCheck>,
    /// Checks in a language of the user's own.
    pub custom_checks: Option<Vec<CustomCheck>>,
}

/// A bound on the age of the newest record.
#[derive(Debug, Clone)]
pub struct FreshnessCheck {
    /// The longest delay allowed, such as `1h`, `30m` or `1d`.
    pub max_delay: String,
    /// The field that holds each record's timestamp.
    pub metric: String,
}

/// A lower bound on the share of rows in which some fields are present.
#[derive(Debug, Clone)]
pub struct CompletenessCheck {
    /// The least share of rows with a value, between 0 and 1.
    pub threshold: Decimal,
    /// The fields of which this is asked.
    pub fields: Vec<String>,
}

/// Fields whose values together occur in one row only.
#[derive(Debug, Clone)]
pub struct UniquenessCheck {
    /// The fields that together identify a row.
    pub fields: Vec<String>,
    /// A label for the scope of the rule, such as `global`.
    pub scope: Option<String>,
}

/// A check in a language of the user's own.
#[derive(Debug, Clone)]
pub struct CustomCheck {
    /// The check's name.
    pub name: String,
    /// The check itself, such as a query.
    pub definition: String,
    /// How grave a failure is, such as `error` or `warning`.
    pub severity: Option<String>,
}

/// The service level of a dataset.
#[derive(Debug, Clone)]
pub struct SLA {
    /// The share of time in which the data is available, between 0 and 1.
    pub availability: Option<Decimal>,
    /// The longest time a query may take, such as `100ms`.
    pub response_time: Option<String>,
    /// What follows a breach.
    pub penalties: Option<String>,
}

} // verus!
