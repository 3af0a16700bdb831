//! The quality stage: completeness of fields and uniqueness of keys over the
//! whole dataset.

use vstd::prelude::*;
use vstd::hash_set::StringHashSet;
use vstd::string::StringExecFns;
use crate::constraints::bool_text;
use crate::contract::{CompletenessCheck, Contract, QualityChecks, UniquenessCheck};
use crate::dataset::{rows_view, DataRow, DataSet, DataValue, ValueView};
use crate::decimal::{hundredths_string, hundredths_text, round_half_even, round_ratio, Decimal};
use crate::error::{append_findings, concat5, findings_of, found, optional, push_finding, Finding,
    ValidationError};
use crate::text::{i64_to_string, int_text, join, joined, nat_text, push_nat};

verus! {

/// Checks the quality rules of a contract on a dataset.
#[derive(Debug, Clone, Copy)]
pub struct QualityValidator;

/// Whether a row holds a value other than null under `name`.
pub open spec fn present(row: Map<Seq<char>, ValueView>, name: Seq<char>) -> bool {
    row.contains_key(name) && !(row[name] is Null)
}

/// In how many rows the field `name` is present.
pub open spec fn present_count(data: Seq<Map<Seq<char>, ValueView>>, name: Seq<char>) -> nat
    decreases data.len(),
{
    if data.len() == 0 {
        0
    } else {
        present_count(data.drop_last(), name) + if present(data.last(), name) {
            1nat
        } else {
            0nat
        }
    }
}

/// Whether `count` of `total` rows is a share of at least `threshold`,
/// compared exactly.
pub open spec fn meets_threshold(count: nat, total: nat, threshold: Decimal) -> bool {
    threshold.at_most_share(count, total)
}

/// The finding for a field that is present in `count` of `total` rows, which
/// is too few: the share measured and the share required, each as a
/// percentage with two fractional digits.
pub open spec fn incomplete(name: Seq<char>, count: nat, total: nat, threshold: Decimal) -> Finding {
    Finding::QualityCheckFailed(
        "Completeness check failed for field '"@ + name + "': "@ + hundredths_text(
            round_half_even(count * 10_000, total),
        ) + "% < "@ + threshold.percent_text() + "% (threshold)"@,
    )
}

/// What the completeness rule finds for one field: nothing in a dataset
/// without rows or where the field is present in a share of the rows of at
/// least `threshold`.
pub open spec fn completeness_finding(
    name: Seq<char>,
    data: Seq<Map<Seq<char>, ValueView>>,
    threshold: Decimal,
) -> Option<Finding> {
    if data.len() == 0 || meets_threshold(present_count(data, name), data.len(), threshold) {
        None
    } else {
        Some(incomplete(name, present_count(data, name), data.len(), threshold))
    }
}

/// What the completeness rule finds: the findings of the listed fields, in
/// their order.
pub open spec fn completeness_findings(
    names: Seq<Seq<char>>,
    data: Seq<Map<Seq<char>, ValueView>>,
    threshold: Decimal,
) -> Seq<Finding>
    decreases names.len(),
{
    if names.len() == 0 {
        Seq::empty()
    } else {
        completeness_findings(names.drop_last(), data, threshold) + optional(
            completeness_finding(names.last(), data, threshold),
        )
    }
}

/// The text by which a value takes part in a key.
pub open spec fn key_text(v: ValueView) -> Seq<char> {
    match v {
        ValueView::Null => "NULL"@,
        ValueView::String(s) => s,
        ValueView::Int(i) => int_text(i as int),
        ValueView::Float(d) => d.text(),
        ValueView::Bool(b) => bool_text(b),
        ValueView::Timestamp(ts) => ts,
        ValueView::Mapping(_) => "[map]"@,
        ValueView::List(_) => "[list]"@,
    }
}

/// The key texts of the first `n` key fields of a row.
pub open spec fn key_parts(names: Seq<Seq<char>>, row: Map<Seq<char>, ValueView>, n: int) -> Seq<
    Seq<char>,
> {
    Seq::new(n as nat, |i: int| key_text(row[names[i]]))
}

/// The key of a row: the key texts of the key fields, joined by `|`. A row
/// that lacks one of the key fields has no key.
pub open spec fn composite_key(names: Seq<Seq<char>>, row: Map<Seq<char>, ValueView>) -> Option<
    Seq<char>,
> {
    if forall|i: int| 0 <= i < names.len() ==> row.contains_key(#[trigger] names[i]) {
        Some(joined(key_parts(names, row, names.len() as int), "|"@))
    } else {
        None
    }
}

/// Whether one of the rows has the key `key`.
pub open spec fn key_occurs(
    names: Seq<Seq<char>>,
    data: Seq<Map<Seq<char>, ValueView>>,
    key: Seq<char>,
) -> bool {
    exists|i: int| 0 <= i < data.len() && composite_key(names, #[trigger] data[i]) == Some(key)
}

/// The key of each row whose key an earlier row has, in the order of the
/// rows: one entry for each repeat, not one for each group of equal keys.
pub open spec fn duplicate_keys(names: Seq<Seq<char>>, data: Seq<Map<Seq<char>, ValueView>>) -> Seq<
    Seq<char>,
>
    decreases data.len(),
{
    if data.len() == 0 {
        Seq::empty()
    } else {
        let before = duplicate_keys(names, data.drop_last());
        match composite_key(names, data.last()) {
            Some(key) => if key_occurs(names, data.drop_last(), key) {
                before.push(key)
            } else {
                before
            },
            None => before,
        }
    }
}

/// What the uniqueness rule finds: nothing where no key repeats, else one
/// finding with the key fields and the number of repeats.
pub open spec fn uniqueness_findings(
    names: Seq<Seq<char>>,
    data: Seq<Map<Seq<char>, ValueView>>,
) -> Seq<Finding> {
    let repeats = duplicate_keys(names, data).len();
    if repeats == 0 {
        Seq::empty()
    } else {
        seq![
            Finding::QualityCheckFailed(
                "Uniqueness check failed for fields ["@ + joined(names, ", "@) + "]: found "@
                    + nat_text(repeats) + " duplicate(s)"@,
            ),
        ]
    }
}

/// What the quality rules find: nothing without rules or without rows, else
/// the findings of the completeness rule, then those of the uniqueness rule.
pub open spec fn quality_rule_findings(
    rules: QualityChecks,
    data: Seq<Map<Seq<char>, ValueView>>,
) -> Seq<Finding> {
    if data.len() == 0 {
        Seq::empty()
    } else {
        (match rules.completeness {
            Some(c) => completeness_findings(c.fields.deep_view(), data, c.threshold),
            None => Seq::empty(),
        }) + (match rules.uniqueness {
            Some(u) => uniqueness_findings(u.fields.deep_view(), data),
            None => Seq::empty(),
        })
    }
}

/// What the quality stage finds in a dataset.
pub open spec fn quality_findings(
    contract: Contract,
    data: Seq<Map<Seq<char>, ValueView>>,
) -> Seq<Finding> {
    match contract.quality_checks {
        Some(rules) => quality_rule_findings(rules, data),
        None => Seq::empty(),
    }
}

impl QualityValidator {
    /// A quality validator.
    pub fn new() -> (r: QualityValidator) {
        QualityValidator
    }

    /// In how many rows the field `name` is present.
    pub fn count_present(&self, field_name: &str, dataset: &DataSet) -> (r: usize)
        ensures
            r == present_count(dataset@, field_name@),
            r <= dataset@.len(),
    {
        let rows = dataset.rows();
        let mut count: usize = 0;
        let mut i: usize = 0;
        while i < rows.len()
            invariant
                i <= rows.len(),
                rows_view(rows@) == dataset@,
                count <= i,
                count == present_count(dataset@.take(i as int), field_name@),
            decreases rows.len() - i,
        {
            proof {
                assert(dataset@.take(i + 1).drop_last() =~= dataset@.take(i as int));
                assert(dataset@.take(i + 1).last() == rows@[i as int]@);
            }
            match rows[i].get(field_name) {
                Some(value) => {
                    if !value.is_null() {
                        count += 1;
                    }
                },
                None => {},
            }
            i += 1;
        }
        assert(dataset@.take(i as int) =~= dataset@);
        count
    }

    /// Checks that one field is present in a share of the rows of at least
    /// `threshold`.
    pub fn check_field_completeness(
        &self,
        field_name: &str,
        dataset: &DataSet,
        threshold: &Decimal,
    ) -> (r: Result<(), ValidationError>)
        ensures
            match r {
                Ok(_) => completeness_finding(field_name@, dataset@, *threshold) is None,
                Err(e) => completeness_finding(field_name@, dataset@, *threshold) == Some(e@),
            },
    {
        let total = dataset.len();
        if total == 0 {
            return Ok(());
        }
        let count = self.count_present(field_name, dataset);
        if threshold.is_at_most_share(count, total) {
            return Ok(());
        }
        let measured = hundredths_string(round_ratio(count as u128 * 10_000, total as u128));
        let mut message = concat5(
            "Completeness check failed for field '",
            field_name,
            "': ",
            measured.as_str(),
            "% < ",
        );
        message.append(threshold.percent_string().as_str());
        message.append("% (threshold)");
        Err(ValidationError::quality_check(message.as_str()))
    }

    /// Checks the completeness rule: each listed field by itself.
    pub fn validate_completeness(&self, check: &CompletenessCheck, dataset: &DataSet) -> (errors:
        Vec<ValidationError>)
        ensures
            findings_of(errors@) == completeness_findings(
                check.fields.deep_view(),
                dataset@,
                check.threshold,
            ),
    {
        let ghost names = check.fields.deep_view();
        let mut errors: Vec<ValidationError> = Vec::new();
        let mut i: usize = 0;
        while i < check.fields.len()
            invariant
                i <= check.fields.len(),
                names == check.fields.deep_view(),
                findings_of(errors@) == completeness_findings(
                    names.take(i as int),
                    dataset@,
                    check.threshold,
                ),
            decreases check.fields.len() - i,
        {
            let result = self.check_field_completeness(
                check.fields[i].as_str(),
                dataset,
                &check.threshold,
            );
            proof {
                assert(names.take(i + 1).drop_last() =~= names.take(i as int));
                assert(names.take(i + 1).last() == check.fields@[i as int]@);
            }
            match result {
                Ok(_) => {
                    push_finding(&mut errors, None);
                },
                Err(e) => {
                    push_finding(&mut errors, Some(e));
                },
            }
            i += 1;
        }
        assert(names.take(i as int) =~= names);
        errors
    }

    /// The text by which a value takes part in a key.
    pub fn value_to_string(&self, value: &DataValue) -> (r: String)
        ensures
            r@ == key_text(value@),
    {
        match value {
            DataValue::Null => "NULL".to_owned(),
            DataValue::String(s) => s.clone(),
            DataValue::Int(i) => i64_to_string(*i),
            DataValue::Float(d) => d.to_string(),
            DataValue::Bool(b) => if *b {
                "true".to_owned()
            } else {
                "false".to_owned()
            },
            DataValue::Timestamp(ts) => ts.clone(),
            DataValue::Mapping(_) => "[map]".to_owned(),
            DataValue::List(_) => "[list]".to_owned(),
        }
    }

    /// The key of a row, if the row has every key field.
    pub fn row_key(&self, fields: &Vec<String>, row: &DataRow) -> (r: Option<String>)
        ensures
            match r {
                Some(k) => composite_key(fields.deep_view(), row@) == Some(k@),
                None => composite_key(fields.deep_view(), row@) is None,
            },
    {
        let ghost names = fields.deep_view();
        let mut parts: Vec<String> = Vec::new();
        let mut i: usize = 0;
        while i < fields.len()
            invariant
                i <= fields.len(),
                names == fields.deep_view(),
                forall|j: int| 0 <= j < i ==> row@.contains_key(#[trigger] names[j]),
                parts.deep_view() == key_parts(names, row@, i as int),
            decreases fields.len() - i,
        {
            match row.get(fields[i].as_str()) {
                Some(value) => {
                    let part = self.value_to_string(value);
                    let ghost head = parts.deep_view();
                    parts.push(part);
                    proof {
                        assert(names[i as int] == fields@[i as int]@);
                        assert(parts.deep_view() =~= head.push(key_text(row@[names[i as int]])));
                        assert(head.push(key_text(row@[names[i as int]])) =~= key_parts(
                            names,
                            row@,
                            i + 1,
                        ));
                    }
                },
                None => {
                    assert(!row@.contains_key(names[i as int]));
                    return None;
                },
            }
            i += 1;
        }
        Some(join(&parts, "|"))
    }

    /// The key of each row whose key an earlier row has, in the order of the
    /// rows.
    pub fn find_duplicates(&self, fields: &Vec<String>, dataset: &DataSet) -> (duplicates: Vec<
        String,
    >)
        ensures
            duplicates.deep_view() == duplicate_keys(fields.deep_view(), dataset@),
    {
        let ghost names = fields.deep_view();
        let rows = dataset.rows();
        let mut seen = StringHashSet::new();
        let mut duplicates: Vec<String> = Vec::new();
        let mut i: usize = 0;
        while i < rows.len()
            invariant
                i <= rows.len(),
                rows_view(rows@) == dataset@,
                names == fields.deep_view(),
                forall|k: Seq<char>|
                    seen@.contains(k) <==> key_occurs(names, dataset@.take(i as int), k),
                duplicates.deep_view() == duplicate_keys(names, dataset@.take(i as int)),
            decreases rows.len() - i,
        {
            let ghost head = dataset@.take(i as int);
            let ghost next = dataset@.take(i + 1);
            let ghost before = seen@;
            proof {
                assert(next.drop_last() =~= head);
                assert(next.last() == rows@[i as int]@);
            }
            match self.row_key(fields, &rows[i]) {
                None => {
                    proof {
                        assert forall|k: Seq<char>|
                            key_occurs(names, head, k) <==> key_occurs(names, next, k) by {
                            if key_occurs(names, head, k) {
                                let j = choose|j: int|
                                    0 <= j < head.len() && composite_key(names, #[trigger] head[j])
                                        == Some(k);
                                assert(next[j] == head[j]);
                            }
                            if key_occurs(names, next, k) {
                                let j = choose|j: int|
                                    0 <= j < next.len() && composite_key(names, #[trigger] next[j])
                                        == Some(k);
                                assert(j < head.len());
                                assert(next[j] == head[j]);
                            }
                        }
                    }
                },
                Some(key) => {
                    let ghost k0 = key@;
                    let fresh = seen.insert(key.clone());
                    if !fresh {
                        duplicates.push(key);
                    }
                    proof {
                        assert forall|k: Seq<char>|
                            seen@.contains(k) <==> key_occurs(names, next, k) by {
                            if seen@.contains(k) {
                                if k == k0 {
                                    assert(composite_key(names, next[i as int]) == Some(k));
                                } else {
                                    assert(before.contains(k));
                                    let j = choose|j: int|
                                        0 <= j < head.len() && composite_key(
                                            names,
                                            #[trigger] head[j],
                                        ) == Some(k);
                                    assert(next[j] == head[j]);
                                }
                            }
                            if key_occurs(names, next, k) {
                                let j = choose|j: int|
                                    0 <= j < next.len() && composite_key(names, #[trigger] next[j])
                                        == Some(k);
                                if j < head.len() {
                                    assert(next[j] == head[j]);
                                    assert(key_occurs(names, head, k));
                                }
                            }
                        }
                    }
                },
            }
            i += 1;
        }
        assert(dataset@.take(i as int) =~= dataset@);
        duplicates
    }

    /// Checks the uniqueness rule.
    pub fn validate_uniqueness(&self, check: &UniquenessCheck, dataset: &DataSet) -> (errors: Vec<
        ValidationError,
    >)
        ensures
            findings_of(errors@) == uniqueness_findings(check.fields.deep_view(), dataset@),
    {
        let mut errors: Vec<ValidationError> = Vec::new();
        let duplicates = self.find_duplicates(&check.fields, dataset);
        if duplicates.len() > 0 {
            let list = join(&check.fields, ", ");
            let mut message = concat5(
                "Uniqueness check failed for fields [",
                list.as_str(),
                "]: found ",
                "",
                "",
            );
            let ghost head = message@;
            push_nat(&mut message, duplicates.len() as u128);
            message.append(" duplicate(s)");
            assert(head =~= "Uniqueness check failed for fields ["@ + list@ + "]: found "@) by {
                reveal_strlit("");
            }
            errors.push(ValidationError::quality_check(message.as_str()));
        }
        errors
    }

    /// Checks the quality rules of a contract: completeness, then
    /// uniqueness. A contract without rules and a dataset without rows give
    /// no findings.
    pub fn validate(&self, contract: &Contract, dataset: &DataSet) -> (errors: Vec<ValidationError>)
        ensures
            findings_of(errors@) == quality_findings(*contract, dataset@),
    {
        let mut errors: Vec<ValidationError> = Vec::new();
        match &contract.quality_checks {
            None => {},
            Some(rules) => {
                if !dataset.is_empty() {
                    match &rules.completeness {
                        Some(c) => {
                            let more = self.validate_completeness(c, dataset);
                            append_findings(&mut errors, more);
                        },
                        None => {},
                    }
                    match &rules.uniqueness {
                        Some(u) => {
                            let more = self.validate_uniqueness(u, dataset);
                            append_findings(&mut errors, more);
                        },
                        None => {},
                    }
                }
            },
        }
        errors
    }
}

impl Default for QualityValidator {
    fn default() -> (r: QualityValidator) {
        QualityValidator::new()
    }
}

} // verus!
