//! Guidance shown after a command: whether it is wanted, which items are
//! shown, and in which words.

use crate::error::{KanbusError, KanbusErrorView};
use crate::models::{IssueData, ProjectConfiguration};
use crate::policy_context::{ContextView, PolicyContext, PolicyOperation};
use crate::policy_engine::{
    error_views, evaluate_policies_report, evaluation_of, PolicyFeature,
};
use crate::policy_evaluator::{PolicyEvaluationMode, PolicyEvaluationOptions};
use crate::policy_evaluator::{
    arranged, dedupe_and_sort_guidance, label_of, severity_label, GuidanceItem, GuidanceSeverity,
    GuidanceView, PolicyEvaluationReport,
};
use crate::text::{
    chars_of, owned, push_str, same_chars_ignoring_case, same_ignoring_case, string_of, trim,
    trim_chars,
};
use vstd::prelude::*;

verus! {

/// Whether the value of the switch that turns guidance off says "off".
pub open spec fn guidance_switched_off(value: Seq<char>) -> bool {
    let word = trim(value);
    same_ignoring_case(word, "1"@) || same_ignoring_case(word, "true"@) || same_ignoring_case(
        word,
        "yes"@,
    ) || same_ignoring_case(word, "on"@)
}

/// Return true if guidance hooks are enabled: the command did not opt out
/// and the switch that turns guidance off (`None` where it is not set) does
/// not say "off".
pub fn guidance_enabled(no_guidance: bool, switch: Option<&str>) -> (out: bool)
    ensures
        out == (!no_guidance && !(switch matches Some(value) && guidance_switched_off(value@))),
{
    if no_guidance {
        return false;
    }
    match switch {
        None => true,
        Some(value) => {
            let word = trim_chars(&chars_of(value));
            !(same_chars_ignoring_case(&word, &chars_of("1")) || same_chars_ignoring_case(
                &word,
                &chars_of("true"),
            ) || same_chars_ignoring_case(&word, &chars_of("yes")) || same_chars_ignoring_case(
                &word,
                &chars_of("on"),
            ))
        },
    }
}

/// The options with which guidance is gathered: all violations, in guidance
/// mode.
pub open spec fn guidance_options() -> PolicyEvaluationOptions {
    PolicyEvaluationOptions { collect_all_violations: true, mode: PolicyEvaluationMode::Guidance }
}

/// The change for which guidance is gathered: the issue as it stands, with
/// nothing in transition.
pub open spec fn guidance_context(
    issue: crate::models::IssueView,
    operation: PolicyOperation,
    all_issues: Seq<crate::models::IssueView>,
) -> ContextView {
    ContextView { proposed: issue, transition: None, operation, all_issues }
}

/// Evaluate guidance for a single issue and operation: the issue stands for
/// its own proposed state, nothing is in transition, and the policies are
/// evaluated in guidance mode with all violations gathered. Without policies
/// the report is empty.
pub fn collect_guidance_for_issue(
    issue: &IssueData,
    operation: PolicyOperation,
    features: &Vec<PolicyFeature>,
    configuration: ProjectConfiguration,
    all_issues: Vec<IssueData>,
) -> (out: PolicyEvaluationReport)
    ensures
        features.len() == 0 ==> out.violations.len() == 0 && out.guidance_items.len() == 0,
        features.len() > 0 ==> error_views(out.violations@) == evaluation_of(
            guidance_context(issue@, operation, all_issues.deep_view()),
            features@,
            guidance_options(),
        ).violations && out.guidance_items.deep_view() == evaluation_of(
            guidance_context(issue@, operation, all_issues.deep_view()),
            features@,
            guidance_options(),
        ).guidance,
{
    if features.len() == 0 {
        return PolicyEvaluationReport::default();
    }
    let context = PolicyContext {
        current_issue: Some(issue.clone()),
        proposed_issue: issue.clone(),
        transition: None,
        operation,
        project_configuration: configuration,
        all_issues,
    };
    let options = PolicyEvaluationOptions {
        collect_all_violations: true,
        mode: PolicyEvaluationMode::Guidance,
    };
    evaluate_policies_report(&context, features, &options)
}

/// Sort and de-duplicate guidance items with warnings first.
pub fn sorted_deduped_guidance_items(items: &Vec<GuidanceItem>) -> (out: Vec<GuidanceItem>)
    ensures
        out.deep_view() == arranged(items.deep_view()),
{
    dedupe_and_sort_guidance(items)
}

/// The advice attached to a policy that could not be evaluated.
pub open spec fn repair_advice() -> Seq<char> {
    "Run \"kbs policy validate\" to fix this policy definition."@
}

/// The guidance item that stands for a violation met while gathering
/// guidance: a warning that names the policy where the violation names one.
pub open spec fn violation_guidance(violation: KanbusErrorView) -> GuidanceView {
    match violation {
        KanbusErrorView::PolicyViolation { policy_file, scenario, failed_step, message, .. } => {
            GuidanceView {
                severity: GuidanceSeverity::Warning,
                message: "Guidance policy error ("@ + policy_file + " / "@ + scenario + "): "@
                    + message,
                explanations: seq![repair_advice()],
                policy_file,
                scenario,
                step: failed_step,
            }
        },
        other => GuidanceView {
            severity: GuidanceSeverity::Warning,
            message: other.text(),
            explanations: seq![repair_advice()],
            policy_file: "unknown"@,
            scenario: "unknown"@,
            step: "unknown"@,
        },
    }
}

/// Builds the guidance item that stands for a violation.
pub fn guidance_for_violation(violation: &KanbusError) -> (out: GuidanceItem)
    ensures
        out@ == violation_guidance(violation@),
{
    let mut explanations: Vec<String> = Vec::new();
    explanations.push(owned("Run \"kbs policy validate\" to fix this policy definition."));
    proof {
        assert(explanations.deep_view() =~= seq![repair_advice()]);
    }
    match violation {
        KanbusError::PolicyViolation { policy_file, scenario, failed_step, message, .. } => {
            let mut text = chars_of("Guidance policy error (");
            push_str(&mut text, policy_file.as_str());
            push_str(&mut text, " / ");
            push_str(&mut text, scenario.as_str());
            push_str(&mut text, "): ");
            push_str(&mut text, message.as_str());
            GuidanceItem {
                severity: GuidanceSeverity::Warning,
                message: string_of(&text),
                explanations,
                policy_file: policy_file.clone(),
                scenario: scenario.clone(),
                step: failed_step.clone(),
            }
        },
        _ => GuidanceItem {
            severity: GuidanceSeverity::Warning,
            message: violation.to_string(),
            explanations,
            policy_file: owned("unknown"),
            scenario: owned("unknown"),
            step: owned("unknown"),
        },
    }
}

/// The guidance that stands for each of `violations`, in order.
pub open spec fn violations_guidance(violations: Seq<KanbusErrorView>) -> Seq<GuidanceView> {
    Seq::new(violations.len(), |i: int| violation_guidance(violations[i]))
}

/// All guidance of one report: its items, then what stands for its
/// violations.
pub open spec fn report_guidance(report: PolicyEvaluationReport) -> Seq<GuidanceView> {
    report.guidance_items.deep_view() + violations_guidance(error_views(report.violations@))
}

/// All guidance of `reports`, report after report.
pub open spec fn collected_guidance(reports: Seq<PolicyEvaluationReport>) -> Seq<GuidanceView>
    decreases reports.len(),
{
    if reports.len() == 0 {
        Seq::empty()
    } else {
        collected_guidance(reports.drop_last()) + report_guidance(reports.last())
    }
}

/// The lines by which one guidance item is shown: its label and message,
/// then each explanation on a line of its own.
pub open spec fn shown(item: GuidanceView) -> Seq<Seq<char>> {
    seq![severity_label(item.severity) + ": "@ + item.message] + Seq::new(
        item.explanations.len(),
        |i: int| "  Explanation: "@ + item.explanations[i],
    )
}

/// The lines of all items, item after item.
pub open spec fn shown_all(items: Seq<GuidanceView>) -> Seq<Seq<char>>
    decreases items.len(),
{
    if items.len() == 0 {
        Seq::empty()
    } else {
        shown_all(items.drop_last()) + shown(items.last())
    }
}

/// Appends the lines of one guidance item.
fn push_shown(lines: &mut Vec<String>, item: &GuidanceItem)
    ensures
        final(lines).deep_view() == old(lines).deep_view() + shown(item@),
{
    let mut head = chars_of(label_of(item.severity));
    push_str(&mut head, ": ");
    push_str(&mut head, item.message.as_str());
    let ghost start = lines.deep_view();
    let first = string_of(&head);
    lines.push(first);
    proof {
        assert(lines.deep_view() =~= start.push(first@));
    }
    let mut i: usize = 0;
    while i < item.explanations.len()
        invariant
            i <= item.explanations.len(),
            lines.deep_view() == start + shown(item@).take(i + 1),
        decreases item.explanations.len() - i,
    {
        let mut line = chars_of("  Explanation: ");
        push_str(&mut line, item.explanations[i].as_str());
        let ghost before = lines.deep_view();
        let text = string_of(&line);
        lines.push(text);
        proof {
            assert(lines.deep_view() =~= before.push(text@));
            assert(shown(item@)[i + 1] == text@);
            assert(shown(item@).take(i + 2) =~= shown(item@).take(i + 1).push(text@));
        }
        i += 1;
    }
    proof {
        assert(shown(item@).take(item.explanations.len() + 1) == shown(item@));
    }
}

/// Gathers the guidance of one report.
fn gather_report(collected: &mut Vec<GuidanceItem>, report: &PolicyEvaluationReport)
    ensures
        final(collected).deep_view() == old(collected).deep_view() + report_guidance(*report),
{
    let ghost start = collected.deep_view();
    let mut i: usize = 0;
    proof {
        assert(report.guidance_items.deep_view().take(0) == Seq::<GuidanceView>::empty());
        assert(start + Seq::<GuidanceView>::empty() == start);
    }
    while i < report.guidance_items.len()
        invariant
            i <= report.guidance_items.len(),
            collected.deep_view() == start + report.guidance_items.deep_view().take(i as int),
        decreases report.guidance_items.len() - i,
    {
        let ghost before = collected.deep_view();
        let copy = report.guidance_items[i].clone();
        collected.push(copy);
        proof {
            assert(collected.deep_view() =~= before.push(copy@));
            assert(report.guidance_items.deep_view().take(i + 1)
                =~= report.guidance_items.deep_view().take(i as int).push(copy@));
        }
        i += 1;
    }
    proof {
        assert(report.guidance_items.deep_view().take(report.guidance_items.len() as int)
            == report.guidance_items.deep_view());
    }
    let ghost middle = collected.deep_view();
    let ghost extra = violations_guidance(error_views(report.violations@));
    let mut j: usize = 0;
    proof {
        assert(extra.take(0) == Seq::<GuidanceView>::empty());
        assert(middle + Seq::<GuidanceView>::empty() == middle);
    }
    while j < report.violations.len()
        invariant
            j <= report.violations.len(),
            extra == violations_guidance(error_views(report.violations@)),
            collected.deep_view() == middle + extra.take(j as int),
        decreases report.violations.len() - j,
    {
        let ghost before = collected.deep_view();
        let item = guidance_for_violation(&report.violations[j]);
        collected.push(item);
        proof {
            assert(collected.deep_view() =~= before.push(item@));
            assert(extra[j as int] == item@);
            assert(extra.take(j + 1) =~= extra.take(j as int).push(item@));
        }
        j += 1;
    }
    proof {
        assert(extra.take(extra.len() as int) == extra);
        assert(start + report.guidance_items.deep_view() + extra == start + (
        report.guidance_items.deep_view() + extra));
    }
}

/// The lines that the guidance of `reports` puts out on the error stream:
/// nothing where guidance is off, else every item once, in order, each with
/// its explanations. The caller writes them.
pub fn emit_guidance_for_issues(reports: &Vec<PolicyEvaluationReport>, enabled: bool) -> (out: Vec<
    String,
>)
    ensures
        out.deep_view() == (if enabled {
            shown_all(arranged(collected_guidance(reports@)))
        } else {
            Seq::<Seq<char>>::empty()
        }),
{
    let mut lines: Vec<String> = Vec::new();
    proof {
        assert(lines.deep_view() =~= Seq::<Seq<char>>::empty());
    }
    if !enabled {
        return lines;
    }
    let mut collected: Vec<GuidanceItem> = Vec::new();
    let mut i: usize = 0;
    proof {
        assert(reports@.take(0) == Seq::<PolicyEvaluationReport>::empty());
        assert(collected.deep_view() =~= Seq::<GuidanceView>::empty());
    }
    while i < reports.len()
        invariant
            i <= reports.len(),
            collected.deep_view() == collected_guidance(reports@.take(i as int)),
        decreases reports.len() - i,
    {
        proof {
            let next = reports@.take(i + 1);
            assert(next.drop_last() == reports@.take(i as int));
            assert(next.last() == reports@[i as int]);
        }
        gather_report(&mut collected, &reports[i]);
        i += 1;
    }
    proof {
        assert(reports@.take(reports.len() as int) == reports@);
    }
    let sorted = sorted_deduped_guidance_items(&collected);
    let mut k: usize = 0;
    proof {
        assert(sorted.deep_view().take(0) == Seq::<GuidanceView>::empty());
    }
    while k < sorted.len()
        invariant
            k <= sorted.len(),
            lines.deep_view() == shown_all(sorted.deep_view().take(k as int)),
        decreases sorted.len() - k,
    {
        proof {
            let next = sorted.deep_view().take(k + 1);
            assert(next.drop_last() == sorted.deep_view().take(k as int));
            assert(next.last() == sorted@[k as int]@);
        }
        push_shown(&mut lines, &sorted[k]);
        k += 1;
    }
    proof {
        assert(sorted.deep_view().take(sorted.len() as int) == sorted.deep_view());
    }
    lines
}

} // verus!
