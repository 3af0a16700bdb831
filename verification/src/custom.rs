//! The last stage: freshness of the newest record and the screening of
//! custom checks, which are never run.

use vstd::prelude::*;
use crate::contract::{Contract, CustomCheck, FreshnessCheck, QualityChecks};
use crate::dataset::{rows_view, DataSet, ValueView};
use crate::error::{append_findings, concat3, findings_of, found, optional, push_finding, Finding,
    ValidationError};
use crate::text::{contains, str_contains, to_uppercase, trim, trimmed, uppercase};
use crate::timing::{delay_text, duration_of, format_duration, parse_duration, parse_timestamp,
    timestamp_of, Duration, Instant};

verus! {

/// Checks the freshness rule and the custom checks of a contract.
#[derive(Debug, Clone, Copy)]
pub struct CustomValidator;

/// The instant that a row holds under `metric`: that of a timestamp value
/// whose text can be read. Any other row has none.
pub open spec fn row_instant(row: Map<Seq<char>, ValueView>, metric: Seq<char>) -> Option<Instant> {
    if row.contains_key(metric) {
        match row[metric] {
            ValueView::Timestamp(ts) => timestamp_of(ts),
            _ => None,
        }
    } else {
        None
    }
}

/// The later of two optional instants; the first where they are equal.
pub open spec fn later(a: Option<Instant>, b: Option<Instant>) -> Option<Instant> {
    match (a, b) {
        (None, _) => b,
        (_, None) => a,
        (Some(x), Some(y)) => if y.later_than(x) {
            b
        } else {
            a
        },
    }
}

/// The latest instant that the rows hold under `metric`, if any row holds
/// one.
pub open spec fn newest(data: Seq<Map<Seq<char>, ValueView>>, metric: Seq<char>) -> Option<Instant>
    decreases data.len(),
{
    if data.len() == 0 {
        None
    } else {
        later(newest(data.drop_last(), metric), row_instant(data.last(), metric))
    }
}

/// What the freshness rule finds once the delay is read and the newest
/// instant is known: that there is no instant at all, or that the newest
/// one lies further back from `now` than the delay allows.
pub open spec fn freshness_verdict_of(
    max_nanos: int,
    metric: Seq<char>,
    most_recent: Option<Instant>,
    now: Instant,
) -> Option<Finding> {
    match most_recent {
        None => Some(
            Finding::QualityCheckFailed(
                "Freshness check failed: no valid timestamps found in field '"@ + metric + "'"@,
            ),
        ),
        Some(t) => if now.nanos_since(t) > max_nanos {
            Some(Finding::StaleData { delay: delay_text(now.nanos_since(t)) })
        } else {
            None
        },
    }
}

/// What the freshness rule finds at the time `now`: that the delay cannot be
/// read, or the verdict on the newest instant of the dataset.
pub open spec fn freshness_finding(
    check: FreshnessCheck,
    data: Seq<Map<Seq<char>, ValueView>>,
    now: Instant,
) -> Option<Finding> {
    match duration_of(check.max_delay@) {
        Err(f) => Some(f),
        Ok(secs) => freshness_verdict_of(
            secs * 1_000_000_000,
            check.metric@,
            newest(data, check.metric@),
            now,
        ),
    }
}

/// What the screening finds for one custom check: that its definition is
/// empty or blank, or that it names neither `SELECT` nor `COUNT` in any
/// case.
pub open spec fn custom_check_finding(check: CustomCheck) -> Option<Finding> {
    if trimmed(check.definition@).len() == 0 {
        Some(
            Finding::CustomCheckFailed {
                name: check.name@,
                message: "Custom check definition is empty"@,
            },
        )
    } else if !contains(uppercase(check.definition@), "SELECT"@) && !contains(
        uppercase(check.definition@),
        "COUNT"@,
    ) {
        Some(
            Finding::CustomCheckFailed {
                name: check.name@,
                message: "Custom check definition does not appear to be a SQL query"@,
            },
        )
    } else {
        None
    }
}

/// What the screening finds for a list of custom checks, in their order.
pub open spec fn custom_check_findings(checks: Seq<CustomCheck>) -> Seq<Finding>
    decreases checks.len(),
{
    if checks.len() == 0 {
        Seq::empty()
    } else {
        custom_check_findings(checks.drop_last()) + optional(custom_check_finding(checks.last()))
    }
}

/// What the last stage finds for the rules of a contract at the time `now`:
/// nothing in a dataset without rows, else the finding of the freshness
/// rule, then those of the custom checks.
pub open spec fn custom_rule_findings(
    rules: QualityChecks,
    data: Seq<Map<Seq<char>, ValueView>>,
    now: Instant,
) -> Seq<Finding> {
    if data.len() == 0 {
        Seq::empty()
    } else {
        optional(
            match rules.freshness {
                Some(f) => freshness_finding(f, data, now),
                None => None,
            },
        ) + (match rules.custom_checks {
            Some(list) => custom_check_findings(list@),
            None => Seq::empty(),
        })
    }
}

/// What the last stage finds in a dataset at the time `now`.
pub open spec fn custom_findings(
    contract: Contract,
    data: Seq<Map<Seq<char>, ValueView>>,
    now: Instant,
) -> Seq<Finding> {
    match contract.quality_checks {
        Some(rules) => custom_rule_findings(rules, data, now),
        None => Seq::empty(),
    }
}

/// Whether a contract has a freshness rule, so that what is found depends
/// on the time.
pub open spec fn reads_clock(contract: Contract) -> bool {
    contract.quality_checks matches Some(rules) && rules.freshness is Some
}

/// Without a freshness rule the last stage finds the same at every time.
pub proof fn lemma_time_matters_only_for_freshness(
    contract: Contract,
    data: Seq<Map<Seq<char>, ValueView>>,
    now: Instant,
    other_time: Instant,
)
    requires
        !reads_clock(contract),
    ensures
        custom_findings(contract, data, now) == custom_findings(contract, data, other_time),
{
}

impl CustomValidator {
    /// A validator of freshness and custom checks.
    pub fn new() -> (r: CustomValidator) {
        CustomValidator
    }

    /// The latest instant that the rows hold under `metric`. Values that
    /// are no timestamps and texts that cannot be read are passed over.
    pub fn newest_timestamp(&self, metric: &str, dataset: &DataSet) -> (r: Option<Instant>)
        ensures
            r == newest(dataset@, metric@),
    {
        let rows = dataset.rows();
        let mut most_recent: Option<Instant> = None;
        let mut i: usize = 0;
        while i < rows.len()
            invariant
                i <= rows.len(),
                rows_view(rows@) == dataset@,
                most_recent == newest(dataset@.take(i as int), metric@),
            decreases rows.len() - i,
        {
            proof {
                assert(dataset@.take(i + 1).drop_last() =~= dataset@.take(i as int));
            }
            match rows[i].get(metric) {
                Some(value) => {
                    match value.as_timestamp() {
                        Some(text) => {
                            match parse_timestamp(text) {
                                Ok(ts) => {
                                    let newer = match most_recent {
                                        None => true,
                                        Some(m) => ts.is_later_than(&m),
                                    };
                                    if newer {
                                        most_recent = Some(ts);
                                    }
                                },
                                Err(_) => {},
                            }
                        },
                        None => {},
                    }
                },
                None => {},
            }
            i += 1;
        }
        assert(dataset@.take(i as int) =~= dataset@);
        most_recent
    }

    /// The verdict of the freshness rule on the newest instant of a dataset,
    /// at the time `now`.
    pub fn freshness_verdict(
        &self,
        max_delay: Duration,
        metric: &str,
        most_recent: Option<Instant>,
        now: Instant,
    ) -> (r: Result<(), ValidationError>)
        ensures
            match r {
                Ok(_) => freshness_verdict_of(max_delay.nanos(), metric@, most_recent, now) is None,
                Err(e) => freshness_verdict_of(max_delay.nanos(), metric@, most_recent, now)
                    == Some(e@),
            },
    {
        match most_recent {
            None => Err(
                ValidationError::quality_check(
                    concat3(
                        "Freshness check failed: no valid timestamps found in field '",
                        metric,
                        "'",
                    ).as_str(),
                ),
            ),
            Some(t) => {
                let age = now.since(&t);
                if age.longer_than(&max_delay) {
                    Err(ValidationError::StaleData { delay: format_duration(age) })
                } else {
                    Ok(())
                }
            },
        }
    }

    /// Checks the freshness rule at the time `now`.
    pub fn validate_freshness_at(&self, check: &FreshnessCheck, dataset: &DataSet, now: Instant) -> (r:
        Result<(), ValidationError>)
        ensures
            match r {
                Ok(_) => freshness_finding(*check, dataset@, now) is None,
                Err(e) => freshness_finding(*check, dataset@, now) == Some(e@),
            },
    {
        let max_delay = match parse_duration(check.max_delay.as_str()) {
            Ok(d) => d,
            Err(e) => {
                return Err(e);
            },
        };
        let most_recent = self.newest_timestamp(check.metric.as_str(), dataset);
        self.freshness_verdict(max_delay, check.metric.as_str(), most_recent, now)
    }

    /// Checks the freshness rule at the time of the system clock: the result
    /// is what [`Self::validate_freshness_at`] gives for some instant.
    pub fn validate_freshness(&self, check: &FreshnessCheck, dataset: &DataSet) -> (r: Result<
        (),
        ValidationError,
    >)
        ensures
            exists|now: Instant|
                match r {
                    Ok(_) => #[trigger] freshness_finding(*check, dataset@, now) is None,
                    Err(e) => freshness_finding(*check, dataset@, now) == Some(e@),
                },
    {
        let now = Instant::now();
        self.validate_freshness_at(check, dataset, now)
    }

    /// Screens one custom check.
    pub fn screen_custom_check(&self, check: &CustomCheck) -> (r: Option<ValidationError>)
        ensures
            found(r) == custom_check_finding(*check),
    {
        if trim(check.definition.as_str()).as_str().is_empty() {
            return Some(
                ValidationError::custom_check(
                    check.name.as_str(),
                    "Custom check definition is empty",
                ),
            );
        }
        let upper = to_uppercase(check.definition.as_str());
        if !str_contains(upper.as_str(), "SELECT") && !str_contains(upper.as_str(), "COUNT") {
            return Some(
                ValidationError::custom_check(
                    check.name.as_str(),
                    "Custom check definition does not appear to be a SQL query",
                ),
            );
        }
        None
    }

    /// Screens the custom checks, in their order.
    pub fn validate_custom_checks(&self, checks: &Vec<CustomCheck>) -> (errors: Vec<ValidationError>)
        ensures
            findings_of(errors@) == custom_check_findings(checks@),
    {
        let mut errors: Vec<ValidationError> = Vec::new();
        let mut i: usize = 0;
        while i < checks.len()
            invariant
                i <= checks.len(),
                findings_of(errors@) == custom_check_findings(checks@.take(i as int)),
            decreases checks.len() - i,
        {
            let one = self.screen_custom_check(&checks[i]);
            push_finding(&mut errors, one);
            proof {
                assert(checks@.take(i + 1).drop_last() =~= checks@.take(i as int));
            }
            i += 1;
        }
        assert(checks@.take(i as int) =~= checks@);
        errors
    }

    /// Checks freshness at the time `now` and screens the custom checks.
    pub fn validate_at(&self, contract: &Contract, dataset: &DataSet, now: Instant) -> (errors: Vec<
        ValidationError,
    >)
        ensures
            findings_of(errors@) == custom_findings(*contract, dataset@, now),
    {
        let mut errors: Vec<ValidationError> = Vec::new();
        match &contract.quality_checks {
            None => {},
            Some(rules) => {
                if !dataset.is_empty() {
                    match &rules.freshness {
                        Some(f) => {
                            match self.validate_freshness_at(f, dataset, now) {
                                Ok(_) => {
                                    push_finding(&mut errors, None);
                                },
                                Err(e) => {
                                    push_finding(&mut errors, Some(e));
                                },
                            }
                        },
                        None => {},
                    }
                    match &rules.custom_checks {
                        Some(list) => {
                            let more = self.validate_custom_checks(list);
                            append_findings(&mut errors, more);
                        },
                        None => {},
                    }
                }
            },
        }
        errors
    }

    /// Checks freshness at the time of the system clock and screens the
    /// custom checks: the result is what [`Self::validate_at`] gives for
    /// some instant.
    pub fn validate(&self, contract: &Contract, dataset: &DataSet) -> (errors: Vec<ValidationError>)
        ensures
            exists|now: Instant|
                findings_of(errors@) == #[trigger] custom_findings(*contract, dataset@, now),
            !reads_clock(*contract) ==> forall|now: Instant|
                findings_of(errors@) == #[trigger] custom_findings(*contract, dataset@, now),
    {
        let now = Instant::now();
        let errors = self.validate_at(contract, dataset, now);
        proof {
            if !reads_clock(*contract) {
                assert forall|other: Instant|
                    findings_of(errors@) == #[trigger] custom_findings(
                        *contract,
                        dataset@,
                        other,
                    ) by {
                    lemma_time_matters_only_for_freshness(*contract, dataset@, now, other);
                }
            }
        }
        errors
    }
}

impl Default for CustomValidator {
    fn default() -> (r: CustomValidator) {
        CustomValidator::new()
    }
}

} // verus!
