//! Decisions of the command line that need no input or output: where the
//! data for a validation comes from, and the defaults of a new contract.

use vstd::prelude::*;
use vstd::string::StringExecFns;
use crate::contract::{DataFormat, QualityChecks};
use crate::error::concat3;
use crate::text::{nat_text, push_nat};

verus! {

/// Why a validation runs without data.
#[derive(Debug, Clone, Copy, PartialEq, Eq, Structural)]
pub enum WithoutData {
    /// Only the schema was asked for.
    SchemaOnly,
    /// Data in the contract's format cannot be read yet.
    FormatNotSupported,
}

/// Where the data for a validation comes from.
#[derive(Debug, Clone, Copy, PartialEq, Eq, Structural)]
pub enum ValidationPlan {
    /// The Iceberg table that the contract names is read.
    ReadTable,
    /// The contract is validated against a dataset without rows.
    EmptyDataset(WithoutData),
}

/// Where the data comes from: an Iceberg table is read unless only the
/// schema is asked for; for every other format there is no data.
pub open spec fn planned(format: DataFormat, schema_only: bool) -> ValidationPlan {
    if format is Iceberg {
        if schema_only {
            ValidationPlan::EmptyDataset(WithoutData::SchemaOnly)
        } else {
            ValidationPlan::ReadTable
        }
    } else {
        ValidationPlan::EmptyDataset(WithoutData::FormatNotSupported)
    }
}

/// Decides where the data for a validation comes from.
pub fn plan_validation(format: &DataFormat, schema_only: bool) -> (r: ValidationPlan)
    ensures
        r == planned(*format, schema_only),
{
    match format {
        DataFormat::Iceberg => {
            if schema_only {
                ValidationPlan::EmptyDataset(WithoutData::SchemaOnly)
            } else {
                ValidationPlan::ReadTable
            }
        },
        _ => ValidationPlan::EmptyDataset(WithoutData::FormatNotSupported),
    }
}

/// The owner of a new contract where none is given.
pub open spec fn default_owner() -> Seq<char> {
    "data-team"@
}

/// The owner of a new contract: the one given, or `data-team`.
pub fn owner_or_default(owner: Option<&str>) -> (r: String)
    ensures
        r@ == match owner {
            Some(o) => o@,
            None => default_owner(),
        },
{
    match owner {
        Some(o) => o.to_owned(),
        None => "data-team".to_owned(),
    }
}

/// The description of a new contract where none is given: it names the
/// table in its namespace, or in `default` without a namespace.
pub open spec fn generated_description(namespace: Option<Seq<char>>, table: Seq<char>) -> Seq<char> {
    "Auto-generated contract from Iceberg table "@ + (match namespace {
        Some(n) => n,
        None => "default"@,
    }) + "."@ + table
}

/// The description of a new contract: the one given, or one that names the
/// table.
pub fn description_or_default(description: Option<String>, namespace: Option<&str>, table: &str) -> (r:
    String)
    ensures
        r@ == match description {
            Some(d) => d@,
            None => generated_description(crate::format::text_of(namespace), table@),
        },
{
    match description {
        Some(d) => d,
        None => {
            let place = match namespace {
                Some(n) => n,
                None => "default",
            };
            let mut r = concat3("Auto-generated contract from Iceberg table ", place, ".");
            r.append(table);
            r
        },
    }
}

/// The list that holds `name` if `present`, and nothing otherwise.
pub open spec fn named_if(present: bool, name: Seq<char>) -> Seq<Seq<char>> {
    if present {
        seq![name]
    } else {
        Seq::empty()
    }
}

/// The names of the quality rules that a contract has, for a summary:
/// `completeness`, `uniqueness` and `freshness` where they are set, and the
/// number of custom checks where there are any.
pub open spec fn rule_names(rules: QualityChecks) -> Seq<Seq<char>> {
    named_if(rules.completeness is Some, "completeness"@) + named_if(
        rules.uniqueness is Some,
        "uniqueness"@,
    ) + named_if(rules.freshness is Some, "freshness"@) + (match rules.custom_checks {
        Some(list) => named_if(list@.len() > 0, nat_text(list@.len()) + " custom"@),
        None => Seq::empty(),
    })
}

/// The names of the quality rules that a contract has.
pub fn quality_rule_names(rules: &QualityChecks) -> (r: Vec<String>)
    ensures
        r.deep_view() == rule_names(*rules),
{
    let mut r: Vec<String> = Vec::new();
    if rules.completeness.is_some() {
        r.push("completeness".to_owned());
    }
    if rules.uniqueness.is_some() {
        r.push("uniqueness".to_owned());
    }
    if rules.freshness.is_some() {
        r.push("freshness".to_owned());
    }
    match &rules.custom_checks {
        Some(list) => {
            if list.len() > 0 {
                let mut name = String::new();
                push_nat(&mut name, list.len() as u128);
                name.append(" custom");
                r.push(name);
            }
        },
        None => {},
    }
    assert(r.deep_view() =~= rule_names(*rules));
    r
}

} // verus!
