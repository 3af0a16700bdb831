//! The schema stage: presence, nullability and type of each field of each
//! row, and the well-formedness of the schema itself.

use vstd::prelude::*;
use vstd::hash_set::StringHashSet;
use crate::contract::{Contract, Field};
use crate::dataset::{DataRow, DataSet, DataValue, ValueView};
use crate::error::{append_findings, concat2, findings_of, found, optional, push_finding,
    Finding, ValidationError};
use crate::text::{lowercase, same_text, starts_with, to_lowercase, trim, trimmed};

verus! {

/// Checks the rows of a dataset against the fields of a contract.
#[derive(Debug, Clone, Copy)]
pub struct SchemaValidator;

/// A type name as it is compared: in lower case, without whitespace around
/// it.
pub open spec fn normalized_type(declared: Seq<char>) -> Seq<char> {
    trimmed(lowercase(declared))
}

/// Whether a value that is not null is acceptable for a field whose
/// normalized type name is `normal`. A name that is not recognized accepts
/// every value.
pub open spec fn type_accepts(normal: Seq<char>, v: ValueView) -> bool {
    if normal == "string"@ {
        v is String
    } else if normal == "int"@ || normal == "int64"@ || normal == "integer"@ || normal == "long"@ {
        v is Int
    } else if normal == "float"@ || normal == "float64"@ || normal == "double"@ {
        v is Float || v is Int
    } else if normal == "boolean"@ || normal == "bool"@ {
        v is Bool
    } else if normal == "timestamp"@ || normal == "datetime"@ {
        v is Timestamp
    } else if normal == "map"@ {
        v is Mapping
    } else if normal == "list"@ || normal == "array"@ {
        v is List
    } else if "map<"@.is_prefix_of(normal) {
        v is Mapping
    } else if "list<"@.is_prefix_of(normal) || "array<"@.is_prefix_of(normal) {
        v is List
    } else {
        true
    }
}

/// What the schema stage finds for one field in one row.
pub open spec fn field_finding(
    field: Field,
    row: Map<Seq<char>, ValueView>,
    row_idx: nat,
) -> Option<Finding> {
    if !row.contains_key(field.name@) {
        if field.nullable {
            None
        } else {
            Some(Finding::MissingField(field.name@))
        }
    } else if row[field.name@] is Null {
        if field.nullable {
            None
        } else {
            Some(Finding::NullConstraintViolation { field: field.name@, row: Some(row_idx) })
        }
    } else if type_accepts(normalized_type(field.field_type@), row[field.name@]) {
        None
    } else {
        Some(
            Finding::TypeMismatch {
                field: field.name@,
                expected: field.field_type@,
                actual: row[field.name@].type_label(),
            },
        )
    }
}

/// What the schema stage finds in one row: the findings of the fields, in
/// the order of the fields.
pub open spec fn row_findings(
    fields: Seq<Field>,
    row: Map<Seq<char>, ValueView>,
    row_idx: nat,
) -> Seq<Finding>
    decreases fields.len(),
{
    if fields.len() == 0 {
        Seq::empty()
    } else {
        row_findings(fields.drop_last(), row, row_idx) + optional(
            field_finding(fields.last(), row, row_idx),
        )
    }
}

/// What the schema stage finds in a dataset: the findings of the rows, in
/// the order of the rows.
pub open spec fn schema_findings(
    fields: Seq<Field>,
    data: Seq<Map<Seq<char>, ValueView>>,
) -> Seq<Finding>
    decreases data.len(),
{
    if data.len() == 0 {
        Seq::empty()
    } else {
        schema_findings(fields, data.drop_last()) + row_findings(
            fields,
            data.last(),
            (data.len() - 1) as nat,
        )
    }
}

/// Whether the name of the field at `i` is that of an earlier field.
pub open spec fn name_seen_before(fields: Seq<Field>, i: int) -> bool {
    exists|j: int| 0 <= j < i && fields[j].name@ == fields[i].name@
}

/// One finding for each of the first `n` fields whose name an earlier field
/// has.
pub open spec fn duplicate_findings(fields: Seq<Field>, n: nat) -> Seq<Finding>
    decreases n,
{
    if n == 0 {
        Seq::empty()
    } else {
        duplicate_findings(fields, (n - 1) as nat) + if name_seen_before(fields, n - 1) {
            seq![Finding::SchemaError("Duplicate field name: "@ + fields[n - 1].name@)]
        } else {
            Seq::empty()
        }
    }
}

/// What is wrong with a schema by itself: that it has no fields, and each
/// repeated field name.
pub open spec fn definition_findings(fields: Seq<Field>) -> Seq<Finding> {
    if fields.len() == 0 {
        seq![Finding::SchemaError("Schema has no fields defined"@)]
    } else {
        duplicate_findings(fields, fields.len())
    }
}

/// A type name in lower case and without whitespace around it.
pub fn normalize_type(type_str: &str) -> (r: String)
    ensures
        r@ == normalized_type(type_str@),
{
    let lower = to_lowercase(type_str);
    trim(lower.as_str())
}

/// Whether a value that is not null is acceptable for a field whose
/// normalized type name is `normal`.
pub fn type_matches(normal: &str, value: &DataValue) -> (r: bool)
    ensures
        r == type_accepts(normal@, value@),
{
    if same_text(normal, "string") {
        matches!(value, DataValue::String(_))
    } else if same_text(normal, "int") || same_text(normal, "int64") || same_text(
        normal,
        "integer",
    ) || same_text(normal, "long") {
        matches!(value, DataValue::Int(_))
    } else if same_text(normal, "float") || same_text(normal, "float64") || same_text(
        normal,
        "double",
    ) {
        matches!(value, DataValue::Float(_) | DataValue::Int(_))
    } else if same_text(normal, "boolean") || same_text(normal, "bool") {
        matches!(value, DataValue::Bool(_))
    } else if same_text(normal, "timestamp") || same_text(normal, "datetime") {
        matches!(value, DataValue::Timestamp(_))
    } else if same_text(normal, "map") {
        matches!(value, DataValue::Mapping(_))
    } else if same_text(normal, "list") || same_text(normal, "array") {
        matches!(value, DataValue::List(_))
    } else if starts_with(normal, "map<") {
        matches!(value, DataValue::Mapping(_))
    } else if starts_with(normal, "list<") || starts_with(normal, "array<") {
        matches!(value, DataValue::List(_))
    } else {
        true
    }
}

impl SchemaValidator {
    /// A schema validator.
    pub fn new() -> (r: SchemaValidator) {
        SchemaValidator
    }

    /// Checks the type of a value that is not null.
    pub fn validate_type(&self, field: &Field, value: &DataValue, row_idx: usize) -> (r: Option<
        ValidationError,
    >)
        ensures
            match r {
                Some(e) => !type_accepts(normalized_type(field.field_type@), value@) && e@ == (
                Finding::TypeMismatch {
                    field: field.name@,
                    expected: field.field_type@,
                    actual: value@.type_label(),
                }),
                None => type_accepts(normalized_type(field.field_type@), value@),
            },
    {
        let expected = normalize_type(field.field_type.as_str());
        if type_matches(expected.as_str(), value) {
            None
        } else {
            Some(
                ValidationError::type_mismatch(
                    field.name.as_str(),
                    field.field_type.as_str(),
                    value.type_label(),
                ),
            )
        }
    }

    /// Checks one field in one row.
    pub fn validate_field(&self, field: &Field, row: &DataRow, row_idx: usize) -> (r: Option<
        ValidationError,
    >)
        ensures
            found(r) == field_finding(*field, row@, row_idx as nat),
    {
        match row.get(field.name.as_str()) {
            None => {
                if field.nullable {
                    None
                } else {
                    Some(ValidationError::missing_field(field.name.as_str()))
                }
            },
            Some(value) => {
                if value.is_null() {
                    if field.nullable {
                        None
                    } else {
                        Some(ValidationError::null_violation(field.name.as_str(), Some(row_idx)))
                    }
                } else {
                    self.validate_type(field, value, row_idx)
                }
            },
        }
    }

    /// Checks every field of the contract in one row.
    pub fn validate_row(&self, contract: &Contract, row: &DataRow, row_idx: usize) -> (errors: Vec<
        ValidationError,
    >)
        ensures
            findings_of(errors@) == row_findings(contract.schema.fields@, row@, row_idx as nat),
    {
        let fields = &contract.schema.fields;
        let mut errors: Vec<ValidationError> = Vec::new();
        let mut i: usize = 0;
        while i < fields.len()
            invariant
                i <= fields.len(),
                findings_of(errors@) == row_findings(fields@.take(i as int), row@, row_idx as nat),
            decreases fields.len() - i,
        {
            let found = self.validate_field(&fields[i], row, row_idx);
            push_finding(&mut errors, found);
            proof {
                assert(fields@.take(i + 1).drop_last() =~= fields@.take(i as int));
            }
            i += 1;
        }
        assert(fields@.take(i as int) =~= fields@);
        errors
    }

    /// Checks every row of a dataset against the fields of the contract.
    /// A dataset without rows gives no findings.
    pub fn validate(&self, contract: &Contract, dataset: &DataSet) -> (errors: Vec<ValidationError>)
        ensures
            findings_of(errors@) == schema_findings(contract.schema.fields@, dataset@),
    {
        let rows = dataset.rows();
        let mut errors: Vec<ValidationError> = Vec::new();
        let mut i: usize = 0;
        while i < rows.len()
            invariant
                i <= rows.len(),
                crate::dataset::rows_view(rows@) == dataset@,
                findings_of(errors@) == schema_findings(
                    contract.schema.fields@,
                    dataset@.take(i as int),
                ),
            decreases rows.len() - i,
        {
            let found = self.validate_row(contract, &rows[i], i);
            append_findings(&mut errors, found);
            proof {
                assert(dataset@.take(i + 1).drop_last() =~= dataset@.take(i as int));
                assert(dataset@.take(i + 1).last() == rows@[i as int]@);
            }
            i += 1;
        }
        assert(dataset@.take(i as int) =~= dataset@);
        errors
    }

    /// Checks the schema of a contract by itself: that it has fields, and
    /// that no two of them have the same name.
    pub fn validate_schema_definition(&self, contract: &Contract) -> (errors: Vec<ValidationError>)
        ensures
            findings_of(errors@) == definition_findings(contract.schema.fields@),
    {
        let fields = &contract.schema.fields;
        let mut errors: Vec<ValidationError> = Vec::new();
        if fields.len() == 0 {
            errors.push(ValidationError::schema("Schema has no fields defined"));
            return errors;
        }
        let mut seen = StringHashSet::new();
        let mut i: usize = 0;
        while i < fields.len()
            invariant
                i <= fields.len(),
                forall|k: Seq<char>|
                    seen@.contains(k) <==> exists|j: int| 0 <= j < i && fields@[j].name@ == k,
                findings_of(errors@) == duplicate_findings(fields@, i as nat),
            decreases fields.len() - i,
        {
            let ghost name = fields@[i as int].name@;
            let ghost before = seen@;
            let fresh = seen.insert(fields[i].name.clone());
            proof {
                assert(fresh == !name_seen_before(fields@, i as int));
                assert forall|k: Seq<char>|
                    seen@.contains(k) <==> exists|j: int|
                        0 <= j < i + 1 && fields@[j].name@ == k by {
                    if seen@.contains(k) {
                        if k == name {
                            assert(fields@[i as int].name@ == k);
                        } else {
                            assert(before.contains(k));
                            let j = choose|j: int| 0 <= j < i && fields@[j].name@ == k;
                            assert(0 <= j < i + 1 && fields@[j].name@ == k);
                        }
                    }
                    if exists|j: int| 0 <= j < i + 1 && fields@[j].name@ == k {
                        let j = choose|j: int| 0 <= j < i + 1 && fields@[j].name@ == k;
                        if j < i {
                            assert(before.contains(k));
                        }
                    }
                }
            }
            if !fresh {
                let e = ValidationError::schema(
                    concat2("Duplicate field name: ", fields[i].name.as_str()).as_str(),
                );
                push_finding(&mut errors, Some(e));
            } else {
                push_finding(&mut errors, None);
            }
            i += 1;
        }
        errors
    }
}

impl Default for SchemaValidator {
    fn default() -> (r: SchemaValidator) {
        SchemaValidator::new()
    }
}

} // verus!
