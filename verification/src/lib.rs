//! Validation of tabular data against declarative data contracts.
//!
//! A contract names the fields of a dataset, their types and nullability,
//! per-field constraints and dataset-level quality rules. The engine checks a
//! dataset against a contract in four stages (schema, constraints, quality,
//! freshness and custom checks) and returns a report of errors and warnings.
//!
//! The library is verified with Verus. What each stage finds is defined as a
//! mathematical function of the contract and the content of the dataset, and
//! each executable function is proved to compute it. Regular expressions,
//! the reading of timestamps, Unicode case and character classes and the
//! clock come from other crates and from the standard library; each such
//! call stands in a small function of its own whose contract is trusted and
//! says so.

pub mod builder;
pub mod config;
pub mod constraints;
pub mod contract;
pub mod custom;
pub mod dataset;
pub mod decimal;
pub mod engine;
pub mod error;
pub mod format;
pub mod laws;
pub mod location;
pub mod planning;
pub mod properties;
pub mod quality;
pub mod report;
pub mod schema;
pub mod text;
pub mod timing;
pub mod validation;

pub use builder::{ContractBuilder, FieldBuilder, QualityChecksBuilder};
pub use config::{CatalogType, IcebergConfig, IcebergConfigBuilder, IcebergError};
pub use constraints::ConstraintValidator;
pub use contract::{
    CompletenessCheck, Contract, CustomCheck, DataFormat, Field, FieldConstraints, FreshnessCheck,
    QualityChecks, Schema, UniquenessCheck, SLA,
};
pub use custom::CustomValidator;
pub use dataset::{DataRow, DataSet, DataValue};
pub use decimal::{Decimal, NumberKind};
pub use engine::DataValidator;
pub use error::ValidationError;
pub use format::{detect_format, ContractFormat, ParserError};
pub use properties::Properties;
pub use quality::QualityValidator;
pub use schema::SchemaValidator;
pub use timing::{Duration, Instant};
pub use validation::{
    ContractError, ContractValidator, ValidationContext, ValidationReport, ValidationResult,
    ValidationStats,
};
