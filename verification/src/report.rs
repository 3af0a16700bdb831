//! A validation report as a listing for people and as a document for
//! programs. Neither adds to what the report says.

use vstd::prelude::*;
use vstd::string::StringExecFns;
use crate::text::{nat_text, push_nat};
use crate::validation::ValidationReport;

verus! {

/// What a line of the listing is, so that each kind can be shown in its own
/// style.
#[derive(Debug, Clone, Copy, PartialEq, Eq, Structural)]
pub enum LineKind {
    /// An empty line.
    Blank,
    /// A horizontal rule.
    Rule,
    /// The title of the listing.
    Title,
    /// The verdict of a report that passed: a mark and a text.
    Passed,
    /// The verdict of a report that failed: a mark and a text.
    Failed,
    /// The heading above the errors.
    ErrorsHeading,
    /// One error: its number and its message.
    ErrorItem,
    /// The heading above the warnings.
    WarningsHeading,
    /// One warning: its number and its message.
    WarningItem,
    /// The heading above the counts.
    SummaryHeading,
    /// One count.
    Count,
}

/// One line of the listing: what stands first, in plain style, and the text
/// behind it, in the style of the line's kind. A verdict has a space between
/// its mark and its text.
#[derive(Debug, Clone, PartialEq, Eq)]
pub struct ReportLine {
    pub kind: LineKind,
    pub label: String,
    pub text: String,
}

/// The mathematical content of a [`ReportLine`].
pub struct LineView {
    pub kind: LineKind,
    pub label: Seq<char>,
    pub text: Seq<char>,
}

impl View for ReportLine {
    type V = LineView;

    open spec fn view(&self) -> LineView {
        LineView { kind: self.kind, label: self.label@, text: self.text@ }
    }
}

/// The contents of a list of lines.
pub open spec fn lines_of(lines: Seq<ReportLine>) -> Seq<LineView> {
    lines.map_values(|l: ReportLine| l@)
}

/// A line without a label.
pub open spec fn plain_line(kind: LineKind, text: Seq<char>) -> LineView {
    LineView { kind, label: Seq::empty(), text }
}

/// The horizontal rule: sixty double lines.
pub open spec fn rule_text() -> Seq<char> {
    "════════════════════════════════════════════════════════════"@
}

/// The first `n` messages as numbered lines: two spaces, the number from
/// one, a full stop and a space stand before each message.
pub open spec fn item_lines(kind: LineKind, messages: Seq<Seq<char>>, n: nat) -> Seq<LineView>
    decreases n,
{
    if n == 0 {
        Seq::empty()
    } else {
        item_lines(kind, messages, (n - 1) as nat).push(
            LineView {
                kind,
                label: "  "@ + nat_text(n) + ". "@,
                text: messages[n - 1],
            },
        )
    }
}

/// A heading behind an empty line and the numbered messages under it, or
/// nothing where there are no messages.
pub open spec fn section(
    heading: LineKind,
    title: Seq<char>,
    item: LineKind,
    messages: Seq<Seq<char>>,
) -> Seq<LineView> {
    if messages.len() == 0 {
        Seq::empty()
    } else {
        seq![plain_line(LineKind::Blank, Seq::empty()), plain_line(heading, title)] + item_lines(
            item,
            messages,
            messages.len(),
        )
    }
}

/// The listing of a report: the title between rules, the verdict, the
/// numbered errors and the numbered warnings where there are any, and the
/// counts of both above a closing rule.
pub open spec fn listing(passed: bool, errors: Seq<Seq<char>>, warnings: Seq<Seq<char>>) -> Seq<
    LineView,
> {
    seq![
        plain_line(LineKind::Blank, Seq::empty()),
        plain_line(LineKind::Rule, rule_text()),
        plain_line(LineKind::Title, "  VALIDATION REPORT"@),
        plain_line(LineKind::Rule, rule_text()),
        plain_line(LineKind::Blank, Seq::empty()),
        if passed {
            LineView { kind: LineKind::Passed, label: "✓"@, text: "Validation PASSED"@ }
        } else {
            LineView { kind: LineKind::Failed, label: "✗"@, text: "Validation FAILED"@ }
        },
    ] + section(LineKind::ErrorsHeading, "Errors:"@, LineKind::ErrorItem, errors) + section(
        LineKind::WarningsHeading,
        "Warnings:"@,
        LineKind::WarningItem,
        warnings,
    ) + seq![
        plain_line(LineKind::Blank, Seq::empty()),
        plain_line(LineKind::SummaryHeading, "Summary:"@),
        plain_line(LineKind::Count, "  Total errors:   "@ + nat_text(errors.len())),
        plain_line(LineKind::Count, "  Total warnings: "@ + nat_text(warnings.len())),
        plain_line(LineKind::Rule, rule_text()),
    ]
}

/// A report as a document: whether it passed, its errors, its warnings and
/// how many there are of each.
#[derive(Debug, Clone, PartialEq, Eq)]
pub struct ReportDocument {
    pub passed: bool,
    pub errors: Vec<String>,
    pub warnings: Vec<String>,
    pub summary: ReportSummary,
}

/// The counts of a report.
#[derive(Debug, Clone, Copy, PartialEq, Eq, Structural)]
pub struct ReportSummary {
    pub error_count: usize,
    pub warning_count: usize,
}

/// A line without a label.
fn line(kind: LineKind, text: &str) -> (r: ReportLine)
    ensures
        r@ == plain_line(kind, text@),
{
    ReportLine { kind, label: String::new(), text: text.to_owned() }
}

/// Adds a heading and the numbered messages under it, where there are any.
fn push_section(
    lines: &mut Vec<ReportLine>,
    heading: LineKind,
    title: &str,
    item: LineKind,
    messages: &Vec<String>,
)
    ensures
        lines_of(final(lines)@) == lines_of(old(lines)@) + section(
            heading,
            title@,
            item,
            messages.deep_view(),
        ),
{
    let ghost before = lines_of(lines@);
    let ghost all = messages.deep_view();
    if messages.len() == 0 {
        return ;
    }
    lines.push(line(LineKind::Blank, ""));
    lines.push(line(heading, title));
    let ghost head = seq![plain_line(LineKind::Blank, Seq::empty()), plain_line(heading, title@)];
    proof {
        reveal_strlit("");
        assert("".view() =~= Seq::<char>::empty());
    }
    let mut i: usize = 0;
    while i < messages.len()
        invariant
            i <= messages.len(),
            all == messages.deep_view(),
            lines_of(lines@) == before + head + item_lines(item, all, i as nat),
        decreases messages.len() - i,
    {
        let mut label = "  ".to_owned();
        push_nat(&mut label, i as u128 + 1);
        label.append(". ");
        let ghost shown = lines_of(lines@);
        lines.push(ReportLine { kind: item, label, text: messages[i].clone() });
        proof {
            assert(lines_of(lines@) =~= shown.push(
                LineView {
                    kind: item,
                    label: "  "@ + nat_text((i + 1) as nat) + ". "@,
                    text: all[i as int],
                },
            ));
        }
        i += 1;
    }
}

/// The listing of a report, line by line.
pub fn text_report(report: &ValidationReport) -> (lines: Vec<ReportLine>)
    ensures
        lines_of(lines@) == listing(
            report.passed,
            report.errors.deep_view(),
            report.warnings.deep_view(),
        ),
{
    let rule = "════════════════════════════════════════════════════════════";
    let mut lines: Vec<ReportLine> = Vec::new();
    proof {
        reveal_strlit("");
        assert("".view() =~= Seq::<char>::empty());
    }
    lines.push(line(LineKind::Blank, ""));
    lines.push(line(LineKind::Rule, rule));
    lines.push(line(LineKind::Title, "  VALIDATION REPORT"));
    lines.push(line(LineKind::Rule, rule));
    lines.push(line(LineKind::Blank, ""));
    if report.passed {
        lines.push(
            ReportLine {
                kind: LineKind::Passed,
                label: "✓".to_owned(),
                text: "Validation PASSED".to_owned(),
            },
        );
    } else {
        lines.push(
            ReportLine {
                kind: LineKind::Failed,
                label: "✗".to_owned(),
                text: "Validation FAILED".to_owned(),
            },
        );
    }
    let ghost top = lines_of(lines@);
    proof {
        assert(top =~= seq![
            plain_line(LineKind::Blank, Seq::empty()),
            plain_line(LineKind::Rule, rule_text()),
            plain_line(LineKind::Title, "  VALIDATION REPORT"@),
            plain_line(LineKind::Rule, rule_text()),
            plain_line(LineKind::Blank, Seq::empty()),
            if report.passed {
                LineView { kind: LineKind::Passed, label: "✓"@, text: "Validation PASSED"@ }
            } else {
                LineView { kind: LineKind::Failed, label: "✗"@, text: "Validation FAILED"@ }
            },
        ]);
    }
    push_section(
        &mut lines,
        LineKind::ErrorsHeading,
        "Errors:",
        LineKind::ErrorItem,
        &report.errors,
    );
    push_section(
        &mut lines,
        LineKind::WarningsHeading,
        "Warnings:",
        LineKind::WarningItem,
        &report.warnings,
    );
    let mut errors = "  Total errors:   ".to_owned();
    push_nat(&mut errors, report.errors.len() as u128);
    let mut warnings = "  Total warnings: ".to_owned();
    push_nat(&mut warnings, report.warnings.len() as u128);
    lines.push(line(LineKind::Blank, ""));
    lines.push(line(LineKind::SummaryHeading, "Summary:"));
    lines.push(line(LineKind::Count, errors.as_str()));
    lines.push(line(LineKind::Count, warnings.as_str()));
    lines.push(line(LineKind::Rule, rule));
    lines
}

/// A copy of a list of strings.
fn copy_lines(list: &Vec<String>) -> (r: Vec<String>)
    ensures
        r.deep_view() == list.deep_view(),
{
    let mut r: Vec<String> = Vec::new();
    let mut i: usize = 0;
    while i < list.len()
        invariant
            i <= list.len(),
            r@.len() == i,
            forall|j: int| 0 <= j < i ==> (#[trigger] r@[j])@ == list@[j]@,
        decreases list.len() - i,
    {
        r.push(list[i].clone());
        i += 1;
    }
    r
}

/// A report as a document.
pub fn report_document(report: &ValidationReport) -> (r: ReportDocument)
    ensures
        r.passed == report.passed,
        r.errors.deep_view() == report.errors.deep_view(),
        r.warnings.deep_view() == report.warnings.deep_view(),
        r.summary.error_count == report.errors@.len(),
        r.summary.warning_count == report.warnings@.len(),
{
    ReportDocument {
        passed: report.passed,
        errors: copy_lines(&report.errors),
        warnings: copy_lines(&report.warnings),
        summary: ReportSummary {
            error_count: report.errors.len(),
            warning_count: report.warnings.len(),
        },
    }
}

} // verus!
