//! Running policies: their scenarios step by step, and what is reported.

use crate::error::{KanbusError, KanbusErrorView};
use crate::policy_context::{ContextView, PolicyContext};
use crate::policy_evaluator::{
    policy_violation, violation_view, GuidanceItem, GuidanceSeverity, GuidanceView,
    PolicyEvaluationMode, PolicyEvaluationOptions, PolicyEvaluationReport,
};
use crate::policy_execution::{execute_step, result_view, step_result, StepResult, StepResultView};
use crate::policy_steps::{find_step, step_named, StepOutcome, StepOutcomeView};
use crate::text::{chars_of, owned, push_str, string_of, trim, trim_chars};
use vstd::prelude::*;

verus! {

/// The keyword with which a step begins.
#[derive(Debug, Clone, Copy, PartialEq, Eq, Structural)]
pub enum StepType {
    Given,
    When,
    Then,
}

/// One step of a scenario.
#[derive(Debug)]
pub struct PolicyStep {
    pub ty: StepType,
    pub value: String,
}

/// One scenario of a policy.
#[derive(Debug)]
pub struct PolicyScenario {
    pub name: String,
    pub steps: Vec<PolicyStep>,
}

/// One policy file: its name and its scenarios.
#[derive(Debug)]
pub struct PolicyFeature {
    pub file_name: String,
    pub scenarios: Vec<PolicyScenario>,
}

/// The keyword of a step type.
pub open spec fn keyword(ty: StepType) -> Seq<char> {
    match ty {
        StepType::Given => "Given"@,
        StepType::When => "When"@,
        StepType::Then => "Then"@,
    }
}

/// Executable form of [`keyword`].
pub fn step_keyword(ty: StepType) -> (out: &'static str)
    ensures
        out@ == keyword(ty),
{
    match ty {
        StepType::Given => "Given",
        StepType::When => "When",
        StepType::Then => "Then",
    }
}

/// A step as a violation names it: its keyword and its text.
pub open spec fn step_label(ty: StepType, text: Seq<char>) -> Seq<char> {
    keyword(ty) + " "@ + text
}

/// A step that was looked up and, where it is defined, evaluated.
pub struct EvaluatedStep {
    pub ty: StepType,
    /// The text of the step, white space aside.
    pub text: String,
    /// What the step came to, or `None` where no step is defined for the text.
    pub outcome: Option<StepResult>,
}

/// Mathematical content of [`EvaluatedStep`].
pub struct EvaluatedView {
    pub ty: StepType,
    pub text: Seq<char>,
    pub outcome: Option<StepResultView>,
}

impl View for EvaluatedStep {
    type V = EvaluatedView;

    open spec fn view(&self) -> EvaluatedView {
        EvaluatedView {
            ty: self.ty,
            text: self.text@,
            outcome: match self.outcome {
                Some(result) => Some(result_view(result)),
                None => None,
            },
        }
    }
}

impl DeepView for EvaluatedStep {
    type V = EvaluatedView;

    open spec fn deep_view(&self) -> EvaluatedView {
        self@
    }
}

/// What an explanation attaches to.
#[derive(Debug, Clone, Copy, PartialEq, Eq, Structural)]
pub enum PendingTarget {
    /// The guidance item at this index.
    Guidance(usize),
    /// The violation of the scenario.
    Violation,
    /// A failed rule that is not reported, as in guidance mode.
    Transient,
}

/// Where the evaluation of a scenario stands.
pub struct Run {
    /// A filter did not hold: the scenario does not apply.
    pub skipped: bool,
    /// The guidance left so far.
    pub guidance: Seq<GuidanceView>,
    /// What an explanation would attach to.
    pub pending: Option<PendingTarget>,
    /// The first rule that failed: its label and its message.
    pub failed: Option<(Seq<char>, Seq<char>)>,
    /// The explanations attached to the failed rule.
    pub explanations: Seq<Seq<char>>,
    /// A step that could not be evaluated: its label and the reason.
    pub broken: Option<(Seq<char>, Seq<char>)>,
    /// No further step is looked at.
    pub stopped: bool,
}

/// The evaluation before the first step.
pub open spec fn run_start() -> Run {
    Run {
        skipped: false,
        guidance: Seq::empty(),
        pending: None,
        failed: None,
        explanations: Seq::empty(),
        broken: None,
        stopped: false,
    }
}

/// The guidance item that a step leaves.
pub open spec fn left_guidance(
    severity: GuidanceSeverity,
    message: Seq<char>,
    policy_file: Seq<char>,
    scenario: Seq<char>,
    label: Seq<char>,
) -> GuidanceView {
    GuidanceView {
        severity,
        message,
        explanations: Seq::empty(),
        policy_file,
        scenario,
        step: label,
    }
}

/// `guidance` with `message` attached to the item at `index`, where there is
/// one.
pub open spec fn explained(guidance: Seq<GuidanceView>, index: int, message: Seq<char>) -> Seq<
    GuidanceView,
> {
    if 0 <= index < guidance.len() {
        guidance.update(
            index,
            GuidanceView {
                explanations: guidance[index].explanations.push(message),
                ..guidance[index]
            },
        )
    } else {
        guidance
    }
}

/// The evaluation after one more step. A step without definition breaks the
/// scenario. A filter that does not hold skips it. The first rule that fails
/// is remembered, and the next rule that passes, is skipped or fails ends
/// the scenario. A warning or suggestion is kept as guidance. An explanation
/// attaches to what the step before it left; with nothing left it breaks the
/// scenario. In guidance mode a failed rule is not remembered.
pub open spec fn advance(
    run: Run,
    step: EvaluatedView,
    mode: PolicyEvaluationMode,
    policy_file: Seq<char>,
    scenario: Seq<char>,
) -> Run {
    let label = step_label(step.ty, step.text);
    if run.stopped {
        run
    } else {
        match step.outcome {
            None => Run {
                broken: Some((label, "no matching step definition for: "@ + step.text)),
                stopped: true,
                ..run
            },
            Some(Ok(StepOutcomeView::Pass)) => if run.failed is Some && step.ty == StepType::Then {
                Run { stopped: true, ..run }
            } else {
                Run { pending: None, ..run }
            },
            Some(Ok(StepOutcomeView::Skip)) => if step.ty != StepType::Then {
                Run { skipped: true, stopped: true, ..run }
            } else if run.failed is Some {
                Run { stopped: true, ..run }
            } else {
                Run { pending: None, ..run }
            },
            Some(Ok(StepOutcomeView::Warn(message))) => Run {
                guidance: run.guidance.push(
                    left_guidance(GuidanceSeverity::Warning, message, policy_file, scenario, label),
                ),
                pending: Some(PendingTarget::Guidance(run.guidance.len() as usize)),
                ..run
            },
            Some(Ok(StepOutcomeView::Suggest(message))) => Run {
                guidance: run.guidance.push(
                    left_guidance(
                        GuidanceSeverity::Suggestion,
                        message,
                        policy_file,
                        scenario,
                        label,
                    ),
                ),
                pending: Some(PendingTarget::Guidance(run.guidance.len() as usize)),
                ..run
            },
            Some(Ok(StepOutcomeView::Explain(message))) => match run.pending {
                None => Run {
                    broken: Some(
                        (
                            label,
                            "orphan explain step: no previously emitted item to attach explanation"@,
                        ),
                    ),
                    stopped: true,
                    ..run
                },
                Some(PendingTarget::Guidance(index)) => Run {
                    guidance: explained(run.guidance, index as int, message),
                    ..run
                },
                Some(PendingTarget::Violation) => Run {
                    explanations: run.explanations.push(message),
                    ..run
                },
                Some(PendingTarget::Transient) => run,
            },
            Some(Err(message)) => if mode == PolicyEvaluationMode::Guidance {
                Run { pending: Some(PendingTarget::Transient), ..run }
            } else if run.failed is None {
                Run {
                    failed: Some((label, message)),
                    pending: Some(PendingTarget::Violation),
                    ..run
                }
            } else {
                Run { stopped: true, ..run }
            },
        }
    }
}

/// The evaluation after all of `steps`.
pub open spec fn run_of(
    steps: Seq<EvaluatedView>,
    mode: PolicyEvaluationMode,
    policy_file: Seq<char>,
    scenario: Seq<char>,
) -> Run
    decreases steps.len(),
{
    if steps.len() == 0 {
        run_start()
    } else {
        advance(
            run_of(steps.drop_last(), mode, policy_file, scenario),
            steps.last(),
            mode,
            policy_file,
            scenario,
        )
    }
}

/// What evaluating one scenario comes to.
pub struct ScenarioEvaluationReport {
    pub violation: Option<KanbusError>,
    pub guidance_items: Vec<GuidanceItem>,
}

/// Mathematical content of [`ScenarioEvaluationReport`].
pub struct ScenarioReportView {
    pub violation: Option<KanbusErrorView>,
    pub guidance_items: Seq<GuidanceView>,
}

impl View for ScenarioEvaluationReport {
    type V = ScenarioReportView;

    open spec fn view(&self) -> ScenarioReportView {
        ScenarioReportView {
            violation: match self.violation {
                Some(error) => Some(error@),
                None => None,
            },
            guidance_items: self.guidance_items.deep_view(),
        }
    }
}

/// The report of an evaluation: a broken scenario is a violation; a skipped
/// scenario reports nothing; a failed rule is a violation that carries its
/// explanations and the guidance left; otherwise the guidance is reported.
pub open spec fn report_of(run: Run, policy_file: Seq<char>, scenario: Seq<char>, issue_id: Seq<char>) -> ScenarioReportView {
    match run.broken {
        Some((label, reason)) => ScenarioReportView {
            violation: Some(
                violation_view(
                    policy_file,
                    scenario,
                    label,
                    reason,
                    issue_id,
                    Seq::empty(),
                    run.guidance,
                ),
            ),
            guidance_items: Seq::empty(),
        },
        None => if run.skipped {
            ScenarioReportView { violation: None, guidance_items: Seq::empty() }
        } else {
            match run.failed {
                Some((label, message)) => ScenarioReportView {
                    violation: Some(
                        violation_view(
                            policy_file,
                            scenario,
                            label,
                            message,
                            issue_id,
                            run.explanations,
                            run.guidance,
                        ),
                    ),
                    guidance_items: Seq::empty(),
                },
                None => ScenarioReportView { violation: None, guidance_items: run.guidance },
            }
        },
    }
}

/// Builds the label of a step.
fn make_label(ty: StepType, text: &str) -> (out: String)
    ensures
        out@ == step_label(ty, text@),
{
    let mut label = chars_of(step_keyword(ty));
    push_str(&mut label, " ");
    push_str(&mut label, text);
    string_of(&label)
}

/// Builds the guidance item that a step leaves.
fn make_guidance(
    severity: GuidanceSeverity,
    message: String,
    policy_file: &str,
    scenario: &str,
    label: String,
) -> (out: GuidanceItem)
    ensures
        out@ == left_guidance(severity, message@, policy_file@, scenario@, label@),
{
    let explanations: Vec<String> = Vec::new();
    proof {
        assert(explanations.deep_view() =~= Seq::<Seq<char>>::empty());
    }
    GuidanceItem {
        severity,
        message,
        explanations,
        policy_file: owned(policy_file),
        scenario: owned(scenario),
        step: label,
    }
}

/// An optional pair of texts as the mathematical pair.
pub open spec fn pair_view(pair: Option<(String, String)>) -> Option<(Seq<char>, Seq<char>)> {
    match pair {
        Some(p) => Some((p.0@, p.1@)),
        None => None,
    }
}

/// Evaluates a scenario from what its steps came to.
pub fn evaluate_outcomes(
    policy_file: &str,
    scenario_name: &str,
    issue_id: &str,
    steps: Vec<EvaluatedStep>,
    mode: PolicyEvaluationMode,
) -> (out: ScenarioEvaluationReport)
    ensures
        out@ == report_of(
            run_of(steps.deep_view(), mode, policy_file@, scenario_name@),
            policy_file@,
            scenario_name@,
            issue_id@,
        ),
{
    broadcast use vstd::std_specs::vec::axiom_spec_into_iter;

    let mut skipped = false;
    let mut guidance: Vec<GuidanceItem> = Vec::new();
    let mut pending: Option<PendingTarget> = None;
    let mut failed: Option<(String, String)> = None;
    let mut explanations: Vec<String> = Vec::new();
    let mut broken: Option<(String, String)> = None;
    let mut stopped = false;
    let ghost all = steps.deep_view();
    let ghost raw = steps@;
    proof {
        assert(all.take(0) == Seq::<EvaluatedView>::empty());
        assert(guidance.deep_view() =~= Seq::<GuidanceView>::empty());
        assert(explanations.deep_view() =~= Seq::<Seq<char>>::empty());
    }
    for step in it: steps.into_iter()
        invariant
            it.seq() == raw,
            all.len() == raw.len(),
            forall|k: int| 0 <= k < raw.len() ==> #[trigger] all[k] == raw[k]@,
            run_of(all.take(it.index() as int), mode, policy_file@, scenario_name@) == (Run {
                skipped,
                guidance: guidance.deep_view(),
                pending,
                failed: pair_view(failed),
                explanations: explanations.deep_view(),
                broken: pair_view(broken),
                stopped,
            }),
    {
        proof {
            let next = all.take(it.index() + 1);
            assert(next.drop_last() == all.take(it.index() as int));
            assert(next.last() == step@);
        }
        if !stopped {
            let label = make_label(step.ty, step.text.as_str());
            match step.outcome {
                None => {
                    let mut reason = chars_of("no matching step definition for: ");
                    push_str(&mut reason, step.text.as_str());
                    broken = Some((label, string_of(&reason)));
                    stopped = true;
                },
                Some(Ok(StepOutcome::Pass)) => {
                    if failed.is_some() && step.ty == StepType::Then {
                        stopped = true;
                    } else {
                        pending = None;
                    }
                },
                Some(Ok(StepOutcome::Skip)) => {
                    if step.ty != StepType::Then {
                        skipped = true;
                        stopped = true;
                    } else if failed.is_some() {
                        stopped = true;
                    } else {
                        pending = None;
                    }
                },
                Some(Ok(StepOutcome::Warn(message))) => {
                    let ghost before = guidance.deep_view();
                    let at = guidance.len();
                    let item = make_guidance(
                        GuidanceSeverity::Warning,
                        message,
                        policy_file,
                        scenario_name,
                        label,
                    );
                    guidance.push(item);
                    proof {
                        assert(guidance.deep_view() =~= before.push(item@));
                    }
                    pending = Some(PendingTarget::Guidance(at));
                },
                Some(Ok(StepOutcome::Suggest(message))) => {
                    let ghost before = guidance.deep_view();
                    let at = guidance.len();
                    let item = make_guidance(
                        GuidanceSeverity::Suggestion,
                        message,
                        policy_file,
                        scenario_name,
                        label,
                    );
                    guidance.push(item);
                    proof {
                        assert(guidance.deep_view() =~= before.push(item@));
                    }
                    pending = Some(PendingTarget::Guidance(at));
                },
                Some(Ok(StepOutcome::Explain(message))) => {
                    match pending {
                        None => {
                            broken = Some(
                                (
                                    label,
                                    owned(
                                        "orphan explain step: no previously emitted item to attach explanation",
                                    ),
                                ),
                            );
                            stopped = true;
                        },
                        Some(PendingTarget::Guidance(index)) => {
                            if index < guidance.len() {
                                let ghost before = guidance.deep_view();
                                let mut item = guidance.remove(index);
                                let ghost told = item.explanations.deep_view();
                                item.explanations.push(message);
                                proof {
                                    assert(item.explanations.deep_view() =~= told.push(message@));
                                }
                                guidance.insert(index, item);
                                proof {
                                    assert(guidance.deep_view() =~= explained(
                                        before,
                                        index as int,
                                        message@,
                                    ));
                                }
                            }
                        },
                        Some(PendingTarget::Violation) => {
                            let ghost before = explanations.deep_view();
                            explanations.push(message);
                            proof {
                                assert(explanations.deep_view() =~= before.push(message@));
                            }
                        },
                        Some(PendingTarget::Transient) => {},
                    }
                },
                Some(Err(message)) => {
                    if mode == PolicyEvaluationMode::Guidance {
                        pending = Some(PendingTarget::Transient);
                    } else if failed.is_none() {
                        failed = Some((label, message));
                        pending = Some(PendingTarget::Violation);
                    } else {
                        stopped = true;
                    }
                },
            }
        }
    }
    proof {
        assert(all.take(all.len() as int) == all);
    }
    match broken {
        Some((label, reason)) => {
            return ScenarioEvaluationReport {
                violation: Some(
                    policy_violation(
                        policy_file,
                        scenario_name,
                        label.as_str(),
                        reason.as_str(),
                        issue_id,
                        Vec::new(),
                        guidance,
                    ),
                ),
                guidance_items: Vec::new(),
            };
        },
        None => {},
    }
    if skipped {
        return ScenarioEvaluationReport { violation: None, guidance_items: Vec::new() };
    }
    match failed {
        Some((label, message)) => ScenarioEvaluationReport {
            violation: Some(
                policy_violation(
                    policy_file,
                    scenario_name,
                    label.as_str(),
                    message.as_str(),
                    issue_id,
                    explanations,
                    guidance,
                ),
            ),
            guidance_items: Vec::new(),
        },
        None => ScenarioEvaluationReport { violation: None, guidance_items: guidance },
    }
}

/// What a step of a scenario comes to in `context`: its text read, and the
/// step evaluated where it is defined.
pub open spec fn evaluated(step: PolicyStep, context: ContextView) -> EvaluatedView {
    let text = trim(step.value@);
    EvaluatedView {
        ty: step.ty,
        text,
        outcome: match step_named(text) {
            Some(check) => Some(step_result(check, context)),
            None => None,
        },
    }
}

/// What the steps of a scenario come to in `context`.
pub open spec fn evaluated_steps(steps: Seq<PolicyStep>, context: ContextView) -> Seq<EvaluatedView> {
    Seq::new(steps.len(), |i: int| evaluated(steps[i], context))
}

/// Looks up and evaluates one step.
pub fn evaluate_step(step: &PolicyStep, context: &PolicyContext) -> (out: EvaluatedStep)
    ensures
        out@ == evaluated(*step, context@),
{
    let text = string_of(&trim_chars(&chars_of(step.value.as_str())));
    let outcome = match find_step(text.as_str()) {
        Some(check) => Some(execute_step(&check, context)),
        None => None,
    };
    EvaluatedStep { ty: step.ty, text, outcome }
}

/// Evaluates one scenario of a policy for the change that `context`
/// describes.
pub fn evaluate_scenario(
    context: &PolicyContext,
    policy_file: &str,
    scenario: &PolicyScenario,
    mode: PolicyEvaluationMode,
) -> (out: ScenarioEvaluationReport)
    ensures
        out@ == report_of(
            run_of(evaluated_steps(scenario.steps@, context@), mode, policy_file@, scenario.name@),
            policy_file@,
            scenario.name@,
            context@.proposed.identifier,
        ),
{
    let mut results: Vec<EvaluatedStep> = Vec::new();
    let mut i: usize = 0;
    while i < scenario.steps.len()
        invariant
            i <= scenario.steps.len(),
            results.deep_view() == evaluated_steps(scenario.steps@, context@).take(i as int),
        decreases scenario.steps.len() - i,
    {
        let ghost before = results.deep_view();
        let result = evaluate_step(&scenario.steps[i], context);
        results.push(result);
        proof {
            assert(results.deep_view() =~= before.push(result@));
            assert(evaluated_steps(scenario.steps@, context@).take(i + 1) =~= before.push(
                result@,
            ));
        }
        i += 1;
    }
    proof {
        assert(evaluated_steps(scenario.steps@, context@).take(scenario.steps.len() as int)
            == evaluated_steps(scenario.steps@, context@));
    }
    evaluate_outcomes(
        policy_file,
        scenario.name.as_str(),
        context.proposed_issue.identifier.as_str(),
        results,
        mode,
    )
}

/// The views of a run of errors.
pub open spec fn error_views(errors: Seq<KanbusError>) -> Seq<KanbusErrorView> {
    Seq::new(errors.len(), |i: int| errors[i]@)
}

/// The violation for a step without definition.
pub open spec fn undefined_step(
    policy_file: Seq<char>,
    scenario: Seq<char>,
    step: PolicyStep,
    issue_id: Seq<char>,
) -> KanbusErrorView {
    violation_view(
        policy_file,
        scenario,
        step_label(step.ty, trim(step.value@)),
        "no matching step definition for: "@ + trim(step.value@),
        issue_id,
        Seq::empty(),
        Seq::empty(),
    )
}

/// The violations for the steps of a scenario that have no definition.
pub open spec fn undefined_steps(
    policy_file: Seq<char>,
    scenario: Seq<char>,
    steps: Seq<PolicyStep>,
    issue_id: Seq<char>,
) -> Seq<KanbusErrorView>
    decreases steps.len(),
{
    if steps.len() == 0 {
        Seq::empty()
    } else {
        let before = undefined_steps(policy_file, scenario, steps.drop_last(), issue_id);
        if step_named(trim(steps.last().value@)) is None {
            before.push(undefined_step(policy_file, scenario, steps.last(), issue_id))
        } else {
            before
        }
    }
}

/// The violations for the steps without definition in the scenarios of a
/// policy.
pub open spec fn undefined_in_scenarios(
    policy_file: Seq<char>,
    scenarios: Seq<PolicyScenario>,
    issue_id: Seq<char>,
) -> Seq<KanbusErrorView>
    decreases scenarios.len(),
{
    if scenarios.len() == 0 {
        Seq::empty()
    } else {
        undefined_in_scenarios(policy_file, scenarios.drop_last(), issue_id) + undefined_steps(
            policy_file,
            scenarios.last().name@,
            scenarios.last().steps@,
            issue_id,
        )
    }
}

/// The violations for the steps without definition in all policies.
pub open spec fn undefined_in_features(features: Seq<PolicyFeature>, issue_id: Seq<char>) -> Seq<
    KanbusErrorView,
>
    decreases features.len(),
{
    if features.len() == 0 {
        Seq::empty()
    } else {
        undefined_in_features(features.drop_last(), issue_id) + undefined_in_scenarios(
            features.last().file_name@,
            features.last().scenarios@,
            issue_id,
        )
    }
}

/// Appends the violations for the steps of one scenario.
fn validate_scenario(
    violations: &mut Vec<KanbusError>,
    policy_file: &str,
    scenario: &PolicyScenario,
    issue_id: &str,
)
    ensures
        error_views(final(violations)@) == error_views(old(violations)@) + undefined_steps(
            policy_file@,
            scenario.name@,
            scenario.steps@,
            issue_id@,
        ),
{
    let ghost start = error_views(violations@);
    let mut i: usize = 0;
    proof {
        assert(scenario.steps@.take(0) == Seq::<PolicyStep>::empty());
        assert(start + Seq::<KanbusErrorView>::empty() == start);
    }
    while i < scenario.steps.len()
        invariant
            i <= scenario.steps.len(),
            error_views(violations@) == start + undefined_steps(
                policy_file@,
                scenario.name@,
                scenario.steps@.take(i as int),
                issue_id@,
            ),
        decreases scenario.steps.len() - i,
    {
        proof {
            let next = scenario.steps@.take(i + 1);
            assert(next.drop_last() == scenario.steps@.take(i as int));
            assert(next.last() == scenario.steps@[i as int]);
        }
        let step = &scenario.steps[i];
        let text = string_of(&trim_chars(&chars_of(step.value.as_str())));
        if find_step(text.as_str()).is_none() {
            let label = make_label(step.ty, text.as_str());
            let mut reason = chars_of("no matching step definition for: ");
            push_str(&mut reason, text.as_str());
            let nothing: Vec<GuidanceItem> = Vec::new();
            let told: Vec<String> = Vec::new();
            proof {
                assert(nothing.deep_view() =~= Seq::<GuidanceView>::empty());
                assert(told.deep_view() =~= Seq::<Seq<char>>::empty());
            }
            let violation = policy_violation(
                policy_file,
                scenario.name.as_str(),
                label.as_str(),
                string_of(&reason).as_str(),
                issue_id,
                told,
                nothing,
            );
            let ghost before = error_views(violations@);
            violations.push(violation);
            proof {
                assert(error_views(violations@) =~= before.push(violation@));
                let so_far = undefined_steps(
                    policy_file@,
                    scenario.name@,
                    scenario.steps@.take(i as int),
                    issue_id@,
                );
                assert(start + so_far.push(violation@) =~= (start + so_far).push(violation@));
            }
        }
        i += 1;
    }
    proof {
        assert(scenario.steps@.take(scenario.steps.len() as int) == scenario.steps@);
    }
}

/// Validate policy structure without running policy assertions: every step
/// must have a definition.
pub fn validate_policy_documents(context: &PolicyContext, features: &Vec<PolicyFeature>) -> (out:
    Vec<KanbusError>)
    ensures
        error_views(out@) == undefined_in_features(features@, context@.proposed.identifier),
{
    let mut violations: Vec<KanbusError> = Vec::new();
    let issue_id = context.proposed_issue.identifier.as_str();
    let mut f: usize = 0;
    proof {
        assert(features@.take(0) == Seq::<PolicyFeature>::empty());
        assert(error_views(violations@) =~= Seq::<KanbusErrorView>::empty());
    }
    while f < features.len()
        invariant
            f <= features.len(),
            issue_id@ == context@.proposed.identifier,
            error_views(violations@) == undefined_in_features(features@.take(f as int), issue_id@),
        decreases features.len() - f,
    {
        proof {
            let next = features@.take(f + 1);
            assert(next.drop_last() == features@.take(f as int));
            assert(next.last() == features@[f as int]);
        }
        let feature = &features[f];
        let ghost start = error_views(violations@);
        let mut s: usize = 0;
        proof {
            assert(feature.scenarios@.take(0) == Seq::<PolicyScenario>::empty());
            assert(start + Seq::<KanbusErrorView>::empty() == start);
        }
        while s < feature.scenarios.len()
            invariant
                s <= feature.scenarios.len(),
                error_views(violations@) == start + undefined_in_scenarios(
                    feature.file_name@,
                    feature.scenarios@.take(s as int),
                    issue_id@,
                ),
            decreases feature.scenarios.len() - s,
        {
            proof {
                let next = feature.scenarios@.take(s + 1);
                assert(next.drop_last() == feature.scenarios@.take(s as int));
                assert(next.last() == feature.scenarios@[s as int]);
                let so_far = undefined_in_scenarios(
                    feature.file_name@,
                    feature.scenarios@.take(s as int),
                    issue_id@,
                );
                let more = undefined_steps(
                    feature.file_name@,
                    feature.scenarios@[s as int].name@,
                    feature.scenarios@[s as int].steps@,
                    issue_id@,
                );
                assert(start + so_far + more =~= start + (so_far + more));
            }
            validate_scenario(
                &mut violations,
                feature.file_name.as_str(),
                &feature.scenarios[s],
                issue_id,
            );
            s += 1;
        }
        proof {
            assert(feature.scenarios@.take(feature.scenarios.len() as int) == feature.scenarios@);
        }
        f += 1;
    }
    proof {
        assert(features@.take(features.len() as int) == features@);
    }
    violations
}

/// What has been gathered while scenarios are evaluated.
pub struct Tally {
    pub violations: Seq<KanbusErrorView>,
    pub guidance: Seq<GuidanceView>,
    /// A violation was met and only the first one is asked for.
    pub done: bool,
}

/// The tally after one more scenario.
pub open spec fn tally_scenario(
    tally: Tally,
    context: ContextView,
    policy_file: Seq<char>,
    scenario: PolicyScenario,
    options: PolicyEvaluationOptions,
) -> Tally {
    if tally.done {
        tally
    } else {
        let report = report_of(
            run_of(evaluated_steps(scenario.steps@, context), options.mode, policy_file, scenario.name@),
            policy_file,
            scenario.name@,
            context.proposed.identifier,
        );
        match report.violation {
            Some(violation) => Tally {
                violations: tally.violations.push(violation),
                guidance: tally.guidance + report.guidance_items,
                done: !options.collect_all_violations,
            },
            None => Tally { guidance: tally.guidance + report.guidance_items, ..tally },
        }
    }
}

/// The tally after the scenarios of one policy.
pub open spec fn tally_scenarios(
    tally: Tally,
    context: ContextView,
    policy_file: Seq<char>,
    scenarios: Seq<PolicyScenario>,
    options: PolicyEvaluationOptions,
) -> Tally
    decreases scenarios.len(),
{
    if scenarios.len() == 0 {
        tally
    } else {
        tally_scenario(
            tally_scenarios(tally, context, policy_file, scenarios.drop_last(), options),
            context,
            policy_file,
            scenarios.last(),
            options,
        )
    }
}

/// The tally after all policies.
pub open spec fn tally_features(
    tally: Tally,
    context: ContextView,
    features: Seq<PolicyFeature>,
    options: PolicyEvaluationOptions,
) -> Tally
    decreases features.len(),
{
    if features.len() == 0 {
        tally
    } else {
        tally_scenarios(
            tally_features(tally, context, features.drop_last(), options),
            context,
            features.last().file_name@,
            features.last().scenarios@,
            options,
        )
    }
}

/// What evaluating the policies comes to. Steps without definition are
/// violations of their own and, where only the first violation is asked for,
/// the first of them is all that is reported. Otherwise the scenarios are
/// evaluated in order, and the first violation ends the evaluation unless all
/// are asked for.
pub open spec fn evaluation_of(
    context: ContextView,
    features: Seq<PolicyFeature>,
    options: PolicyEvaluationOptions,
) -> Tally {
    let undefined = undefined_in_features(features, context.proposed.identifier);
    if undefined.len() > 0 && !options.collect_all_violations {
        Tally { violations: undefined.take(1), guidance: Seq::empty(), done: true }
    } else {
        tally_features(
            Tally { violations: undefined, guidance: Seq::empty(), done: false },
            context,
            features,
            options,
        )
    }
}

/// Moves the guidance of `more` to the end of `guidance`.
fn extend_guidance(guidance: &mut Vec<GuidanceItem>, more: Vec<GuidanceItem>)
    ensures
        final(guidance).deep_view() == old(guidance).deep_view() + more.deep_view(),
{
    broadcast use vstd::std_specs::vec::axiom_spec_into_iter;

    let ghost raw = more@;
    let ghost views = more.deep_view();
    proof {
        assert(views.take(0) == Seq::<GuidanceView>::empty());
        assert(guidance.deep_view() + Seq::<GuidanceView>::empty() == guidance.deep_view());
    }
    for item in it: more.into_iter()
        invariant
            it.seq() == raw,
            views.len() == raw.len(),
            forall|k: int| 0 <= k < raw.len() ==> #[trigger] views[k] == raw[k]@,
            guidance.deep_view() == old(guidance).deep_view() + views.take(it.index() as int),
    {
        let ghost before = guidance.deep_view();
        guidance.push(item);
        proof {
            assert(guidance.deep_view() =~= before.push(item@));
            assert(views.take(it.index() + 1) =~= views.take(it.index() as int).push(item@));
            assert(old(guidance).deep_view() + views.take(it.index() as int).push(item@)
                =~= before.push(item@));
        }
    }
    proof {
        assert(views.take(views.len() as int) == views);
    }
}

/// Evaluate policies and return both violations and guidance items.
pub fn evaluate_policies_report(
    context: &PolicyContext,
    features: &Vec<PolicyFeature>,
    options: &PolicyEvaluationOptions,
) -> (out: PolicyEvaluationReport)
    ensures
        error_views(out.violations@) == evaluation_of(context@, features@, *options).violations,
        out.guidance_items.deep_view() == evaluation_of(context@, features@, *options).guidance,
{
    let mut violations = validate_policy_documents(context, features);
    let mut guidance: Vec<GuidanceItem> = Vec::new();
    proof {
        assert(guidance.deep_view() =~= Seq::<GuidanceView>::empty());
    }
    if violations.len() > 0 && !options.collect_all_violations {
        let ghost all = error_views(violations@);
        violations.truncate(1);
        proof {
            assert(error_views(violations@) =~= all.take(1));
        }
        return PolicyEvaluationReport { violations, guidance_items: guidance };
    }
    let mut done = false;
    let ghost start = Tally { violations: error_views(violations@), guidance: Seq::empty(), done: false };
    let mut f: usize = 0;
    proof {
        assert(features@.take(0) == Seq::<PolicyFeature>::empty());
    }
    while f < features.len()
        invariant
            f <= features.len(),
            tally_features(start, context@, features@.take(f as int), *options) == (Tally {
                violations: error_views(violations@),
                guidance: guidance.deep_view(),
                done,
            }),
        decreases features.len() - f,
    {
        proof {
            let next = features@.take(f + 1);
            assert(next.drop_last() == features@.take(f as int));
            assert(next.last() == features@[f as int]);
        }
        let feature = &features[f];
        let ghost before_feature = Tally {
            violations: error_views(violations@),
            guidance: guidance.deep_view(),
            done,
        };
        let mut s: usize = 0;
        proof {
            assert(feature.scenarios@.take(0) == Seq::<PolicyScenario>::empty());
        }
        while s < feature.scenarios.len()
            invariant
                s <= feature.scenarios.len(),
                tally_scenarios(
                    before_feature,
                    context@,
                    feature.file_name@,
                    feature.scenarios@.take(s as int),
                    *options,
                ) == (Tally {
                    violations: error_views(violations@),
                    guidance: guidance.deep_view(),
                    done,
                }),
            decreases feature.scenarios.len() - s,
        {
            proof {
                let next = feature.scenarios@.take(s + 1);
                assert(next.drop_last() == feature.scenarios@.take(s as int));
                assert(next.last() == feature.scenarios@[s as int]);
            }
            if !done {
                let report = evaluate_scenario(
                    context,
                    feature.file_name.as_str(),
                    &feature.scenarios[s],
                    options.mode,
                );
                extend_guidance(&mut guidance, report.guidance_items);
                match report.violation {
                    Some(violation) => {
                        let ghost before = error_views(violations@);
                        violations.push(violation);
                        proof {
                            assert(error_views(violations@) =~= before.push(violation@));
                        }
                        if !options.collect_all_violations {
                            done = true;
                        }
                    },
                    None => {},
                }
            }
            s += 1;
        }
        proof {
            assert(feature.scenarios@.take(feature.scenarios.len() as int) == feature.scenarios@);
        }
        f += 1;
    }
    proof {
        assert(features@.take(features.len() as int) == features@);
    }
    PolicyEvaluationReport { violations, guidance_items: guidance }
}

/// Evaluate all policies against the given context: the first violation,
/// if there is one.
pub fn evaluate_policies(context: &PolicyContext, features: &Vec<PolicyFeature>) -> (out: Result<
    (),
    KanbusError,
>)
    ensures
        ({
            let found = evaluation_of(
                context@,
                features@,
                PolicyEvaluationOptions {
                    collect_all_violations: false,
                    mode: PolicyEvaluationMode::Enforcement,
                },
            ).violations;
            if found.len() == 0 {
                out is Ok
            } else {
                out matches Err(e) && e@ == found[0]
            }
        }),
{
    let options = PolicyEvaluationOptions {
        collect_all_violations: false,
        mode: PolicyEvaluationMode::Enforcement,
    };
    let report = evaluate_policies_report(context, features, &options);
    let mut violations = report.violations;
    if violations.len() == 0 {
        Ok(())
    } else {
        proof {
            assert(error_views(violations@)[0] == violations@[0]@);
        }
        Err(violations.remove(0))
    }
}

/// Evaluate all policies and optionally collect all violations.
pub fn evaluate_policies_with_options(
    context: &PolicyContext,
    features: &Vec<PolicyFeature>,
    options: &PolicyEvaluationOptions,
) -> (out: Result<Vec<()>, Vec<KanbusError>>)
    ensures
        ({
            let found = evaluation_of(context@, features@, *options).violations;
            if found.len() == 0 {
                out matches Ok(nothing) && nothing.len() == 0
            } else {
                out matches Err(violations) && error_views(violations@) == found
            }
        }),
{
    let report = evaluate_policies_report(context, features, options);
    if report.violations.len() == 0 {
        Ok(Vec::new())
    } else {
        Err(report.violations)
    }
}

} // verus!
