//! Builders for contracts, fields and quality rules.

use vstd::prelude::*;
use crate::contract::{CompletenessCheck, Contract, CustomCheck, DataFormat, Field,
    FieldConstraints, FreshnessCheck, QualityChecks, Schema, UniquenessCheck, SLA};

verus! {

/// Collects the parts of a [`Contract`].
#[derive(Debug)]
pub struct ContractBuilder {
    pub name: Option<String>,
    pub owner: Option<String>,
    pub version: Option<String>,
    pub description: Option<String>,
    pub location: Option<String>,
    pub format: Option<DataFormat>,
    pub fields: Vec<Field>,
    pub quality_checks: Option<QualityChecks>,
    pub sla: Option<SLA>,
}

/// Collects the parts of a [`Field`].
#[derive(Debug)]
pub struct FieldBuilder {
    pub name: Option<String>,
    pub field_type: Option<String>,
    pub nullable: bool,
    pub description: Option<String>,
    pub tags: Option<Vec<String>>,
    pub constraints: Option<Vec<FieldConstraints>>,
}

/// Collects the parts of a [`QualityChecks`].
#[derive(Debug)]
pub struct QualityChecksBuilder {
    pub completeness: Option<CompletenessCheck>,
    pub uniqueness: Option<UniquenessCheck>,
    pub freshness: Option<FreshnessCheck>,
    pub custom_checks: Option<Vec<CustomCheck>>,
}

/// The content of an optional string.
pub open spec fn content(s: Option<String>) -> Option<Seq<char>> {
    match s {
        Some(t) => Some(t@),
        None => None,
    }
}

impl Default for ContractBuilder {
    /// A builder with nothing set.
    fn default() -> (r: ContractBuilder)
        ensures
            r.name is None,
            r.owner is None,
            r.version is None,
            r.description is None,
            r.location is None,
            r.format is None,
            r.fields@.len() == 0,
            r.quality_checks is None,
            r.sla is None,
    {
        ContractBuilder {
            name: None,
            owner: None,
            version: None,
            description: None,
            location: None,
            format: None,
            fields: Vec::new(),
            quality_checks: None,
            sla: None,
        }
    }
}

impl ContractBuilder {
    /// A builder for the contract `name` of `owner`, in version `1.0.0`.
    pub fn new(name: &str, owner: &str) -> (r: ContractBuilder)
        ensures
            content(r.name) == Some(name@),
            content(r.owner) == Some(owner@),
            content(r.version) == Some("1.0.0"@),
            r.description is None,
            r.location is None,
            r.format is None,
            r.fields@.len() == 0,
            r.quality_checks is None,
            r.sla is None,
    {
        ContractBuilder {
            name: Some(name.to_owned()),
            owner: Some(owner.to_owned()),
            version: Some("1.0.0".to_owned()),
            description: None,
            location: None,
            format: None,
            fields: Vec::new(),
            quality_checks: None,
            sla: None,
        }
    }

    /// Sets the version.
    pub fn version(self, version: &str) -> (r: ContractBuilder)
        ensures
            content(r.version) == Some(version@),
            r == (ContractBuilder { version: r.version, ..self }),
    {
        let mut r = self;
        r.version = Some(version.to_owned());
        r
    }

    /// Sets the description.
    pub fn description(self, description: &str) -> (r: ContractBuilder)
        ensures
            content(r.description) == Some(description@),
            r == (ContractBuilder { description: r.description, ..self }),
    {
        let mut r = self;
        r.description = Some(description.to_owned());
        r
    }

    /// Sets the location of the data.
    pub fn location(self, location: &str) -> (r: ContractBuilder)
        ensures
            content(r.location) == Some(location@),
            r == (ContractBuilder { location: r.location, ..self }),
    {
        let mut r = self;
        r.location = Some(location.to_owned());
        r
    }

    /// Sets the format of the data.
    pub fn format(self, format: DataFormat) -> (r: ContractBuilder)
        ensures
            r == (ContractBuilder { format: Some(format), ..self }),
    {
        let mut r = self;
        r.format = Some(format);
        r
    }

    /// Adds a field at the end.
    pub fn field(self, field: Field) -> (r: ContractBuilder)
        ensures
            r.fields@ == self.fields@.push(field),
            r == (ContractBuilder { fields: r.fields, ..self }),
    {
        let mut r = self;
        r.fields.push(field);
        r
    }

    /// Adds fields at the end, in their order.
    pub fn fields(self, fields: Vec<Field>) -> (r: ContractBuilder)
        ensures
            r.fields@ == self.fields@ + fields@,
            r == (ContractBuilder { fields: r.fields, ..self }),
    {
        let mut r = self;
        let mut more = fields;
        r.fields.append(&mut more);
        r
    }

    /// Sets the quality rules.
    pub fn quality_checks(self, checks: QualityChecks) -> (r: ContractBuilder)
        ensures
            r == (ContractBuilder { quality_checks: Some(checks), ..self }),
    {
        let mut r = self;
        r.quality_checks = Some(checks);
        r
    }

    /// Sets the service level.
    pub fn sla(self, sla: SLA) -> (r: ContractBuilder)
        ensures
            r == (ContractBuilder { sla: Some(sla), ..self }),
    {
        let mut r = self;
        r.sla = Some(sla);
        r
    }

    /// The contract. The version, the name, the owner, the format and the
    /// location must have been set.
    pub fn build(self) -> (r: Contract)
        requires
            self.version is Some,
            self.name is Some,
            self.owner is Some,
            self.format is Some,
            self.location is Some,
        ensures
            r.version == self.version.unwrap(),
            r.name == self.name.unwrap(),
            r.owner == self.owner.unwrap(),
            r.description == self.description,
            r.schema.fields == self.fields,
            r.schema.format == self.format.unwrap(),
            r.schema.location == self.location.unwrap(),
            r.quality_checks == self.quality_checks,
            r.sla == self.sla,
    {
        Contract {
            version: self.version.expect("version is required"),
            name: self.name.expect("name is required"),
            owner: self.owner.expect("owner is required"),
            description: self.description,
            schema: Schema {
                fields: self.fields,
                format: self.format.expect("format is required"),
                location: self.location.expect("location is required"),
            },
            quality_checks: self.quality_checks,
            sla: self.sla,
        }
    }
}

impl Default for FieldBuilder {
    /// A builder with nothing set, for a field that may not be null.
    fn default() -> (r: FieldBuilder)
        ensures
            r.name is None,
            r.field_type is None,
            !r.nullable,
            r.description is None,
            r.tags is None,
            r.constraints is None,
    {
        FieldBuilder {
            name: None,
            field_type: None,
            nullable: false,
            description: None,
            tags: None,
            constraints: None,
        }
    }
}

impl FieldBuilder {
    /// A builder for the field `name` of the type `field_type`, which may
    /// be null.
    pub fn new(name: &str, field_type: &str) -> (r: FieldBuilder)
        ensures
            content(r.name) == Some(name@),
            content(r.field_type) == Some(field_type@),
            r.nullable,
            r.description is None,
            r.tags is None,
            r.constraints is None,
    {
        FieldBuilder {
            name: Some(name.to_owned()),
            field_type: Some(field_type.to_owned()),
            nullable: true,
            description: None,
            tags: None,
            constraints: None,
        }
    }

    /// Sets whether the field may be null.
    pub fn nullable(self, nullable: bool) -> (r: FieldBuilder)
        ensures
            r == (FieldBuilder { nullable, ..self }),
    {
        let mut r = self;
        r.nullable = nullable;
        r
    }

    /// Sets the description.
    pub fn description(self, description: &str) -> (r: FieldBuilder)
        ensures
            content(r.description) == Some(description@),
            r == (FieldBuilder { description: r.description, ..self }),
    {
        let mut r = self;
        r.description = Some(description.to_owned());
        r
    }

    /// Sets the tags.
    pub fn tags(self, tags: Vec<String>) -> (r: FieldBuilder)
        ensures
            r == (FieldBuilder { tags: Some(tags), ..self }),
    {
        let mut r = self;
        r.tags = Some(tags);
        r
    }

    /// Adds a constraint at the end.
    pub fn constraint(self, constraint: FieldConstraints) -> (r: FieldBuilder)
        ensures
            r.constraints matches Some(list) && list@ == (match self.constraints {
                Some(before) => before@,
                None => Seq::empty(),
            }).push(constraint),
            r == (FieldBuilder { constraints: r.constraints, ..self }),
    {
        let mut list: Vec<FieldConstraints> = match self.constraints {
            Some(before) => before,
            None => Vec::new(),
        };
        list.push(constraint);
        FieldBuilder {
            name: self.name,
            field_type: self.field_type,
            nullable: self.nullable,
            description: self.description,
            tags: self.tags,
            constraints: Some(list),
        }
    }

    /// The field. The name and the type must have been set.
    pub fn build(self) -> (r: Field)
        requires
            self.name is Some,
            self.field_type is Some,
        ensures
            r.name == self.name.unwrap(),
            r.field_type == self.field_type.unwrap(),
            r.nullable == self.nullable,
            r.description == self.description,
            r.tags == self.tags,
            r.constraints == self.constraints,
    {
        Field {
            name: self.name.expect("name is required"),
            field_type: self.field_type.expect("field_type is required"),
            nullable: self.nullable,
            description: self.description,
            tags: self.tags,
            constraints: self.constraints,
        }
    }
}

impl Default for QualityChecksBuilder {
    /// A builder with no rule set.
    fn default() -> (r: QualityChecksBuilder)
        ensures
            r.completeness is None,
            r.uniqueness is None,
            r.freshness is None,
            r.custom_checks is None,
    {
        QualityChecksBuilder {
            completeness: None,
            uniqueness: None,
            freshness: None,
            custom_checks: None,
        }
    }
}

impl QualityChecksBuilder {
    /// A builder with no rule set.
    pub fn new() -> (r: QualityChecksBuilder)
        ensures
            r.completeness is None,
            r.uniqueness is None,
            r.freshness is None,
            r.custom_checks is None,
    {
        QualityChecksBuilder {
            completeness: None,
            uniqueness: None,
            freshness: None,
            custom_checks: None,
        }
    }

    /// Sets the completeness rule.
    pub fn completeness(self, check: CompletenessCheck) -> (r: QualityChecksBuilder)
        ensures
            r == (QualityChecksBuilder { completeness: Some(check), ..self }),
    {
        let mut r = self;
        r.completeness = Some(check);
        r
    }

    /// Sets the uniqueness rule.
    pub fn uniqueness(self, check: UniquenessCheck) -> (r: QualityChecksBuilder)
        ensures
            r == (QualityChecksBuilder { uniqueness: Some(check), ..self }),
    {
        let mut r = self;
        r.uniqueness = Some(check);
        r
    }

    /// Sets the freshness rule.
    pub fn freshness(self, check: FreshnessCheck) -> (r: QualityChecksBuilder)
        ensures
            r == (QualityChecksBuilder { freshness: Some(check), ..self }),
    {
        let mut r = self;
        r.freshness = Some(check);
        r
    }

    /// Adds a custom check at the end.
    pub fn custom_check(self, check: CustomCheck) -> (r: QualityChecksBuilder)
        ensures
            r.custom_checks matches Some(list) && list@ == (match self.custom_checks {
                Some(before) => before@,
                None => Seq::empty(),
            }).push(check),
            r == (QualityChecksBuilder { custom_checks: r.custom_checks, ..self }),
    {
        let mut list: Vec<CustomCheck> = match self.custom_checks {
            Some(before) => before,
            None => Vec::new(),
        };
        list.push(check);
        QualityChecksBuilder {
            completeness: self.completeness,
            uniqueness: self.uniqueness,
            freshness: self.freshness,
            custom_checks: Some(list),
        }
    }

    /// The quality rules.
    pub fn build(self) -> (r: QualityChecks)
        ensures
            r.completeness == self.completeness,
            r.uniqueness == self.uniqueness,
            r.freshness == self.freshness,
            r.custom_checks == self.custom_checks,
    {
        QualityChecks {
            completeness: self.completeness,
            uniqueness: self.uniqueness,
            freshness: self.freshness,
            custom_checks: self.custom_checks,
        }
    }
}

} // verus!
