use kanbus::error::KanbusError;
use kanbus::models::{
    CustomField, CustomValue, IssueData, ProjectConfiguration, Timestamp,
};
use kanbus::policy_context::{PolicyContext, PolicyOperation, StatusTransition};
use kanbus::policy_engine::{
    evaluate_outcomes, evaluate_policies, evaluate_policies_report, evaluate_policies_with_options,
    evaluate_scenario, evaluate_step, step_keyword, validate_policy_documents, EvaluatedStep,
    PolicyFeature, PolicyScenario, PolicyStep, StepType,
};
use kanbus::policy_evaluator::{GuidanceSeverity, PolicyEvaluationMode, PolicyEvaluationOptions};
use kanbus::policy_execution::execute_step;
use kanbus::policy_guidance::collect_guidance_for_issue;
use kanbus::policy_steps::{find_step, PolicyCheck, StepOutcome};
use regex::Regex;

fn issue(identifier: &str, status: &str, parent: Option<&str>) -> IssueData {
    let stamp = Timestamp { seconds: 0, nanos: 0 };
    IssueData {
        identifier: identifier.to_string(),
        title: "Fix login".to_string(),
        description: "Users cannot log in.".to_string(),
        issue_type: "task".to_string(),
        status: status.to_string(),
        priority: 2,
        assignee: Some("dev".to_string()),
        creator: None,
        parent: parent.map(str::to_string),
        labels: vec!["auth".to_string(), "urgent".to_string()],
        dependencies: Vec::new(),
        comments: Vec::new(),
        created_at: stamp,
        updated_at: stamp,
        closed_at: None,
        custom: vec![
            CustomField { key: "team".to_string(), value: CustomValue::Text("core".to_string()) },
            CustomField { key: "points".to_string(), value: CustomValue::Json("5".to_string()) },
        ],
    }
}

fn configuration() -> ProjectConfiguration {
    ProjectConfiguration {
        project_directory: "project".to_string(),
        project_key: "tsk".to_string(),
        hierarchy: vec!["epic".to_string(), "task".to_string()],
        types: Vec::new(),
        workflows: Vec::new(),
        priorities: Vec::new(),
        default_priority: 2,
        statuses: Vec::new(),
        type_colors: Vec::new(),
        console_port: None,
    }
}

fn context(proposed: IssueData, transition: Option<(&str, &str)>, operation: PolicyOperation) -> PolicyContext {
    PolicyContext {
        current_issue: None,
        proposed_issue: proposed,
        transition: transition
            .map(|(from, to)| StatusTransition { from: from.to_string(), to: to.to_string() }),
        operation,
        project_configuration: configuration(),
        all_issues: vec![
            issue("tsk-parent", "open", None),
            issue("tsk-a", "closed", Some("tsk-1")),
            issue("tsk-b", "open", Some("tsk-1")),
            issue("tsk-c", "open", Some("tsk-1")),
        ],
    }
}

fn plain() -> PolicyContext {
    context(issue("tsk-1", "open", Some("tsk-parent")), None, PolicyOperation::Update)
}

fn run(text: &str, context: &PolicyContext) -> Result<String, String> {
    let check = find_step(text).expect("step should be defined");
    match execute_step(&check, context) {
        Ok(StepOutcome::Pass) => Ok("pass".to_string()),
        Ok(StepOutcome::Skip) => Ok("skip".to_string()),
        Ok(_) => Ok("other".to_string()),
        Err(message) => Err(message),
    }
}

fn pass() -> Result<String, String> {
    Ok("pass".to_string())
}

fn skip() -> Result<String, String> {
    Ok("skip".to_string())
}

fn fail(message: &str) -> Result<String, String> {
    Err(message.to_string())
}

fn step(ty: StepType, value: &str) -> PolicyStep {
    PolicyStep { ty, value: value.to_string() }
}

fn scenario(name: &str, steps: Vec<PolicyStep>) -> PolicyScenario {
    PolicyScenario { name: name.to_string(), steps }
}

fn feature(file_name: &str, scenarios: Vec<PolicyScenario>) -> PolicyFeature {
    PolicyFeature { file_name: file_name.to_string(), scenarios }
}

#[test]
fn steps_are_read_as_their_patterns_read_them() {
    let patterns = [
        r#"^the issue type is "([^"]+)"$"#,
        r#"^the issue has label "([^"]+)"$"#,
        r"^the issue has a parent$",
        r"^the issue priority is ([0-9]+)$",
        r#"^the custom field "([^"]+)" is set$"#,
        r#"^transitioning to "([^"]+)"$"#,
        r#"^transitioning from "([^"]+)"$"#,
        r#"^transitioning from "([^"]+)" to "([^"]+)"$"#,
        r"^creating an issue$",
        r"^closing an issue$",
        r#"^the issue must have field "([^"]+)"$"#,
        r#"^the issue must not have field "([^"]+)"$"#,
        r#"^the field "([^"]+)" must be "([^"]+)"$"#,
        r#"^all child issues must have status "([^"]+)"$"#,
        r#"^no child issues may have status "([^"]+)"$"#,
        r#"^the parent issue must have status "([^"]+)"$"#,
        r"^the issue must have at least ([0-9]+) labels?$",
        r#"^the issue must have label "([^"]+)"$"#,
        r"^the description must not be empty$",
        r#"^the title must match pattern "([^"]+)"$"#,
        r#"^the custom field "([^"]+)" must be set$"#,
        r#"^the custom field "([^"]+)" must be "([^"]+)"$"#,
    ];
    let compiled: Vec<Regex> = patterns.iter().map(|pattern| Regex::new(pattern).unwrap()).collect();
    let corpus = [
        "the issue type is \"task\"",
        "the issue type is \"\"",
        "the issue type is \"a\"b\"",
        "the issue type is \"task\" ",
        " the issue type is \"task\"",
        "the issue type is task",
        "the issue type is \"multi\nline\"",
        "the issue has label \"x y\"",
        "the issue has a parent",
        "the issue has a parent ",
        "the issue priority is 2",
        "the issue priority is 0042",
        "the issue priority is ",
        "the issue priority is 2a",
        "the issue priority is -2",
        "the custom field \"team\" is set",
        "the custom field \"team\" is  set",
        "the custom field \"team\" must be set",
        "the custom field \"team\" must be \"core\"",
        "the custom field \"team\" must be \"\"",
        "the custom field \"team\" must be \"core\" now",
        "the custom field \"\" must be \"core\"",
        "transitioning to \"closed\"",
        "transitioning from \"open\"",
        "transitioning from \"open\" to \"closed\"",
        "transitioning from \"open\" to \"closed\" to \"x\"",
        "transitioning from \"open\"to \"closed\"",
        "creating an issue",
        "closing an issue",
        "closing an issues",
        "the issue must have field \"assignee\"",
        "the issue must not have field \"assignee\"",
        "the field \"status\" must be \"open\"",
        "the field \"status\" must be open",
        "all child issues must have status \"closed\"",
        "no child issues may have status \"blocked\"",
        "the parent issue must have status \"open\"",
        "the issue must have at least 1 label",
        "the issue must have at least 12 labels",
        "the issue must have at least 12 labelss",
        "the issue must have at least  labels",
        "the issue must have at least 1labels",
        "the issue must have label \"auth\"",
        "the description must not be empty",
        "the title must match pattern \"^Fix\"",
        "the title must match pattern \"(\"",
        "explain \"why\"",
        "",
        "\"",
    ];
    for text in corpus {
        let expected = compiled.iter().position(|pattern| pattern.is_match(text));
        let found = find_step(text);
        let index = found.as_ref().map(|check| match check {
            PolicyCheck::IssueTypeIs(_) => 0,
            PolicyCheck::IssueHasLabel(_) => 1,
            PolicyCheck::IssueHasParent => 2,
            PolicyCheck::IssuePriorityIs(_) => 3,
            PolicyCheck::CustomFieldIsSet(_) => 4,
            PolicyCheck::TransitioningTo(_) => 5,
            PolicyCheck::TransitioningFrom(_) => 6,
            PolicyCheck::TransitioningFromTo(_, _) => 7,
            PolicyCheck::CreatingIssue => 8,
            PolicyCheck::ClosingIssue => 9,
            PolicyCheck::MustHaveField(_) => 10,
            PolicyCheck::MustNotHaveField(_) => 11,
            PolicyCheck::FieldMustBe(_, _) => 12,
            PolicyCheck::AllChildrenMustHaveStatus(_) => 13,
            PolicyCheck::NoChildrenMayHaveStatus(_) => 14,
            PolicyCheck::ParentMustHaveStatus(_) => 15,
            PolicyCheck::AtLeastLabels(_) => 16,
            PolicyCheck::MustHaveLabel(_) => 17,
            PolicyCheck::DescriptionNotEmpty => 18,
            PolicyCheck::TitleMustMatch(_) => 19,
            PolicyCheck::CustomFieldMustBeSet(_) => 20,
            PolicyCheck::CustomFieldMustBe(_, _) => 21,
        });
        assert_eq!(index, expected, "text {:?}", text);
        if let Some(at) = expected {
            let captures = compiled[at].captures(text).unwrap();
            let texts: Vec<String> =
                captures.iter().skip(1).map(|m| m.unwrap().as_str().to_string()).collect();
            let ours: Vec<String> = match found.unwrap() {
                PolicyCheck::IssueTypeIs(a)
                | PolicyCheck::IssueHasLabel(a)
                | PolicyCheck::IssuePriorityIs(a)
                | PolicyCheck::CustomFieldIsSet(a)
                | PolicyCheck::TransitioningTo(a)
                | PolicyCheck::TransitioningFrom(a)
                | PolicyCheck::MustHaveField(a)
                | PolicyCheck::MustNotHaveField(a)
                | PolicyCheck::AllChildrenMustHaveStatus(a)
                | PolicyCheck::NoChildrenMayHaveStatus(a)
                | PolicyCheck::ParentMustHaveStatus(a)
                | PolicyCheck::AtLeastLabels(a)
                | PolicyCheck::MustHaveLabel(a)
                | PolicyCheck::TitleMustMatch(a)
                | PolicyCheck::CustomFieldMustBeSet(a) => vec![a],
                PolicyCheck::TransitioningFromTo(a, b)
                | PolicyCheck::FieldMustBe(a, b)
                | PolicyCheck::CustomFieldMustBe(a, b) => vec![a, b],
                _ => Vec::new(),
            };
            assert_eq!(ours, texts, "text {:?}", text);
        }
    }
}

#[test]
fn filters_pass_or_skip() {
    let ctx = plain();
    assert_eq!(run("the issue type is \"task\"", &ctx), pass());
    assert_eq!(run("the issue type is \"bug\"", &ctx), skip());
    assert_eq!(run("the issue has label \"auth\"", &ctx), pass());
    assert_eq!(run("the issue has label \"ui\"", &ctx), skip());
    assert_eq!(run("the issue has a parent", &ctx), pass());
    assert_eq!(run("the issue priority is 2", &ctx), pass());
    assert_eq!(run("the issue priority is 002", &ctx), pass());
    assert_eq!(run("the issue priority is 3", &ctx), skip());
    assert_eq!(run("the issue priority is 99999999999", &ctx), fail("invalid priority"));
    assert_eq!(run("the custom field \"team\" is set", &ctx), pass());
    assert_eq!(run("the custom field \"squad\" is set", &ctx), skip());
    assert_eq!(run("transitioning to \"closed\"", &ctx), skip());
    assert_eq!(run("creating an issue", &ctx), skip());
    assert_eq!(run("closing an issue", &ctx), skip());
    let moving = context(issue("tsk-1", "closed", None), Some(("open", "closed")), PolicyOperation::Close);
    assert_eq!(run("the issue has a parent", &moving), skip());
    assert_eq!(run("transitioning to \"closed\"", &moving), pass());
    assert_eq!(run("transitioning from \"open\"", &moving), pass());
    assert_eq!(run("transitioning from \"closed\"", &moving), skip());
    assert_eq!(run("transitioning from \"open\" to \"closed\"", &moving), pass());
    assert_eq!(run("transitioning from \"open\" to \"blocked\"", &moving), skip());
    assert_eq!(run("closing an issue", &moving), pass());
    let creating = context(issue("tsk-1", "open", None), None, PolicyOperation::Create);
    assert_eq!(run("creating an issue", &creating), pass());
}

#[test]
fn rules_pass_or_fail_with_their_message() {
    let ctx = plain();
    assert_eq!(run("the issue must have field \"assignee\"", &ctx), pass());
    assert_eq!(run("the issue must have field \"description\"", &ctx), pass());
    assert_eq!(
        run("the issue must have field \"creator\"", &ctx),
        fail("issue does not have field \"creator\" set")
    );
    assert_eq!(run("the issue must have field \"labels\"", &ctx), fail("unknown field: labels"));
    assert_eq!(run("the issue must not have field \"creator\"", &ctx), pass());
    assert_eq!(
        run("the issue must not have field \"assignee\"", &ctx),
        fail("issue has field \"assignee\" set but should not")
    );
    assert_eq!(run("the issue must not have field \"title\"", &ctx), fail("unknown field: title"));
    assert_eq!(run("the field \"status\" must be \"open\"", &ctx), pass());
    assert_eq!(run("the field \"type\" must be \"task\"", &ctx), pass());
    assert_eq!(run("the field \"issue_type\" must be \"task\"", &ctx), pass());
    assert_eq!(
        run("the field \"status\" must be \"closed\"", &ctx),
        fail("field \"status\" is \"open\" but must be \"closed\"")
    );
    assert_eq!(run("the field \"creator\" must be \"x\"", &ctx), fail("field \"creator\" is not set"));
    assert_eq!(run("the field \"title\" must be \"x\"", &ctx), fail("unknown field: title"));
    assert_eq!(
        run("all child issues must have status \"closed\"", &ctx),
        fail("child issues tsk-b, tsk-c do not have status \"closed\"")
    );
    assert_eq!(
        run("no child issues may have status \"open\"", &ctx),
        fail("child issues tsk-b, tsk-c have status \"open\" but should not")
    );
    assert_eq!(run("no child issues may have status \"blocked\"", &ctx), pass());
    assert_eq!(run("the parent issue must have status \"open\"", &ctx), pass());
    assert_eq!(
        run("the parent issue must have status \"closed\"", &ctx),
        fail("parent issue tsk-parent has status \"open\" but must have status \"closed\"")
    );
    assert_eq!(run("the issue must have at least 2 labels", &ctx), pass());
    assert_eq!(run("the issue must have at least 1 label", &ctx), pass());
    assert_eq!(
        run("the issue must have at least 3 labels", &ctx),
        fail("issue has 2 label(s) but must have at least 3")
    );
    assert_eq!(
        run("the issue must have at least 99999999999999999999 labels", &ctx),
        fail("invalid label count")
    );
    assert_eq!(run("the issue must have label \"urgent\"", &ctx), pass());
    assert_eq!(
        run("the issue must have label \"ui\"", &ctx),
        fail("issue does not have label \"ui\"")
    );
    assert_eq!(run("the description must not be empty", &ctx), pass());
    assert_eq!(run("the custom field \"team\" must be set", &ctx), pass());
    assert_eq!(
        run("the custom field \"squad\" must be set", &ctx),
        fail("custom field \"squad\" is not set")
    );
    assert_eq!(run("the custom field \"team\" must be \"core\"", &ctx), pass());
    assert_eq!(run("the custom field \"points\" must be \"5\"", &ctx), pass());
    assert_eq!(
        run("the custom field \"team\" must be \"web\"", &ctx),
        fail("custom field \"team\" is \"core\" but must be \"web\"")
    );
    assert_eq!(
        run("the custom field \"squad\" must be \"web\"", &ctx),
        fail("custom field \"squad\" is not set")
    );
    let orphan = context(issue("tsk-9", "open", None), None, PolicyOperation::Update);
    assert_eq!(run("all child issues must have status \"closed\"", &orphan), pass());
    assert_eq!(run("the parent issue must have status \"open\"", &orphan), fail("issue has no parent"));
    let mut blank = issue("tsk-9", "open", None);
    blank.description = " \n".to_string();
    let quiet = context(blank, None, PolicyOperation::Update);
    assert_eq!(run("the description must not be empty", &quiet), fail("issue description is empty"));
    assert_eq!(
        run("the issue must have field \"description\"", &quiet),
        fail("issue does not have field \"description\" set")
    );
}

#[test]
fn title_is_matched_against_a_regular_expression() {
    let ctx = plain();
    assert_eq!(run("the title must match pattern \"^Fix \"", &ctx), pass());
    assert_eq!(run("the title must match pattern \"log.n$\"", &ctx), pass());
    assert_eq!(
        run("the title must match pattern \"^Add\"", &ctx),
        fail("title \"Fix login\" does not match pattern \"^Add\"")
    );
    let refused = run("the title must match pattern \"(\"", &ctx).unwrap_err();
    let reason = Regex::new("(").unwrap_err().to_string();
    assert_eq!(refused, format!("invalid regex pattern: {}", reason));
}

#[test]
fn scenario_with_a_failed_rule_is_a_violation() {
    let ctx = plain();
    let checked = scenario(
        "Tasks need a creator",
        vec![
            step(StepType::Given, "  the issue type is \"task\"  "),
            step(StepType::Then, "the issue must have field \"creator\""),
            step(StepType::Then, "the issue must have label \"ui\""),
        ],
    );
    let report = evaluate_scenario(&ctx, "rules.policy", &checked, PolicyEvaluationMode::Enforcement);
    assert!(report.guidance_items.is_empty());
    match report.violation.unwrap() {
        KanbusError::PolicyViolation { policy_file, scenario, failed_step, message, issue_id, details } => {
            assert_eq!(policy_file, "rules.policy");
            assert_eq!(scenario, "Tasks need a creator");
            assert_eq!(failed_step, "Then the issue must have field \"creator\"");
            assert_eq!(message, "issue does not have field \"creator\" set");
            assert_eq!(issue_id, "tsk-1");
            assert!(details.explanations.is_empty());
            assert!(details.guidance.is_empty());
        }
        _ => panic!("a policy violation was expected"),
    }
}

#[test]
fn scenario_that_does_not_apply_reports_nothing() {
    let ctx = plain();
    let other = scenario(
        "Bugs need owners",
        vec![
            step(StepType::Given, "the issue type is \"bug\""),
            step(StepType::Then, "the issue must have field \"creator\""),
        ],
    );
    let report = evaluate_scenario(&ctx, "rules.policy", &other, PolicyEvaluationMode::Enforcement);
    assert!(report.violation.is_none());
    assert!(report.guidance_items.is_empty());
    let passing = scenario(
        "Tasks need owners",
        vec![
            step(StepType::Given, "the issue type is \"task\""),
            step(StepType::Then, "the issue must have field \"assignee\""),
        ],
    );
    let fine = evaluate_scenario(&ctx, "rules.policy", &passing, PolicyEvaluationMode::Enforcement);
    assert!(fine.violation.is_none());
}

#[test]
fn scenario_with_an_undefined_step_is_broken() {
    let ctx = plain();
    let broken = scenario("Odd", vec![step(StepType::When, "the moon is full")]);
    let report = evaluate_scenario(&ctx, "rules.policy", &broken, PolicyEvaluationMode::Enforcement);
    assert_eq!(
        report.violation.unwrap().to_string(),
        "policy violation in rules.policy for issue tsk-1\n  Scenario: Odd\n  Failed: When the moon is full\n  no matching step definition for: the moon is full"
    );
    let evaluated = evaluate_step(&step(StepType::When, " the moon is full "), &ctx);
    assert_eq!(evaluated.text, "the moon is full");
    assert!(evaluated.outcome.is_none());
    assert_eq!(step_keyword(StepType::Given), "Given");
    assert_eq!(step_keyword(StepType::When), "When");
    assert_eq!(step_keyword(StepType::Then), "Then");
}

#[test]
fn guidance_mode_reports_no_failed_rules() {
    let ctx = plain();
    let checked = scenario(
        "Tasks need a creator",
        vec![
            step(StepType::Given, "the issue type is \"task\""),
            step(StepType::Then, "the issue must have field \"creator\""),
        ],
    );
    let report = evaluate_scenario(&ctx, "rules.policy", &checked, PolicyEvaluationMode::Guidance);
    assert!(report.violation.is_none());
    assert!(report.guidance_items.is_empty());
}

fn outcome(ty: StepType, text: &str, outcome: Option<Result<StepOutcome, String>>) -> EvaluatedStep {
    EvaluatedStep { ty, text: text.to_string(), outcome }
}

#[test]
fn warnings_suggestions_and_explanations_are_gathered() {
    let steps = vec![
        outcome(StepType::Given, "g", Some(Ok(StepOutcome::Pass))),
        outcome(StepType::Then, "warn", Some(Ok(StepOutcome::Warn("careful".to_string())))),
        outcome(StepType::Then, "explain a", Some(Ok(StepOutcome::Explain("because".to_string())))),
        outcome(StepType::Then, "suggest", Some(Ok(StepOutcome::Suggest("maybe".to_string())))),
        outcome(StepType::Then, "explain b", Some(Ok(StepOutcome::Explain("why not".to_string())))),
        outcome(StepType::Then, "explain c", Some(Ok(StepOutcome::Explain("really".to_string())))),
    ];
    let report = evaluate_outcomes("p.policy", "S", "tsk-1", steps, PolicyEvaluationMode::Enforcement);
    assert!(report.violation.is_none());
    assert_eq!(report.guidance_items.len(), 2);
    assert_eq!(report.guidance_items[0].severity, GuidanceSeverity::Warning);
    assert_eq!(report.guidance_items[0].message, "careful");
    assert_eq!(report.guidance_items[0].explanations, vec!["because"]);
    assert_eq!(report.guidance_items[0].policy_file, "p.policy");
    assert_eq!(report.guidance_items[0].scenario, "S");
    assert_eq!(report.guidance_items[0].step, "Then warn");
    assert_eq!(report.guidance_items[1].severity, GuidanceSeverity::Suggestion);
    assert_eq!(report.guidance_items[1].explanations, vec!["why not", "really"]);
}

#[test]
fn explanation_without_anything_to_explain_breaks_the_scenario() {
    let steps = vec![
        outcome(StepType::Then, "warn", Some(Ok(StepOutcome::Warn("careful".to_string())))),
        outcome(StepType::Then, "ok", Some(Ok(StepOutcome::Pass))),
        outcome(StepType::Then, "explain", Some(Ok(StepOutcome::Explain("lost".to_string())))),
        outcome(StepType::Then, "later", Some(Err("never looked at".to_string()))),
    ];
    let report = evaluate_outcomes("p.policy", "S", "tsk-1", steps, PolicyEvaluationMode::Enforcement);
    assert!(report.guidance_items.is_empty());
    match report.violation.unwrap() {
        KanbusError::PolicyViolation { failed_step, message, details, .. } => {
            assert_eq!(failed_step, "Then explain");
            assert_eq!(message, "orphan explain step: no previously emitted item to attach explanation");
            assert_eq!(details.guidance, vec!["GUIDANCE WARNING: careful"]);
        }
        _ => panic!("a policy violation was expected"),
    }
}

#[test]
fn failed_rule_takes_explanations_until_the_next_rule() {
    let steps = vec![
        outcome(StepType::Then, "rule", Some(Err("broken".to_string()))),
        outcome(StepType::Then, "explain", Some(Ok(StepOutcome::Explain("here is why".to_string())))),
        outcome(StepType::Then, "next", Some(Ok(StepOutcome::Pass))),
        outcome(StepType::Then, "explain late", Some(Ok(StepOutcome::Explain("too late".to_string())))),
    ];
    let report = evaluate_outcomes("p.policy", "S", "tsk-1", steps, PolicyEvaluationMode::Enforcement);
    match report.violation.unwrap() {
        KanbusError::PolicyViolation { failed_step, message, details, .. } => {
            assert_eq!(failed_step, "Then rule");
            assert_eq!(message, "broken");
            assert_eq!(details.explanations, vec!["here is why"]);
        }
        _ => panic!("a policy violation was expected"),
    }
    let skipped = vec![
        outcome(StepType::Then, "rule", Some(Err("broken".to_string()))),
        outcome(StepType::When, "filter", Some(Ok(StepOutcome::Skip))),
    ];
    let none = evaluate_outcomes("p.policy", "S", "tsk-1", skipped, PolicyEvaluationMode::Enforcement);
    assert!(none.violation.is_none());
    let transient = vec![
        outcome(StepType::Then, "rule", Some(Err("broken".to_string()))),
        outcome(StepType::Then, "explain", Some(Ok(StepOutcome::Explain("unheard".to_string())))),
    ];
    let quiet = evaluate_outcomes("p.policy", "S", "tsk-1", transient, PolicyEvaluationMode::Guidance);
    assert!(quiet.violation.is_none());
    assert!(quiet.guidance_items.is_empty());
}

fn policies() -> Vec<PolicyFeature> {
    vec![
        feature(
            "a.policy",
            vec![
                scenario(
                    "Tasks need a creator",
                    vec![
                        step(StepType::Given, "the issue type is \"task\""),
                        step(StepType::Then, "the issue must have field \"creator\""),
                    ],
                ),
                scenario(
                    "Tasks need a ui label",
                    vec![step(StepType::Then, "the issue must have label \"ui\"")],
                ),
            ],
        ),
        feature(
            "b.policy",
            vec![scenario(
                "Descriptions",
                vec![step(StepType::Then, "the description must not be empty")],
            )],
        ),
    ]
}

#[test]
fn first_violation_ends_the_evaluation_unless_all_are_asked_for() {
    let ctx = plain();
    let first = evaluate_policies(&ctx, &policies()).unwrap_err();
    assert!(first.to_string().contains("Scenario: Tasks need a creator"));
    let one = evaluate_policies_with_options(&ctx, &policies(), &PolicyEvaluationOptions::default())
        .unwrap_err();
    assert_eq!(one.len(), 1);
    let all = evaluate_policies_with_options(
        &ctx,
        &policies(),
        &PolicyEvaluationOptions { collect_all_violations: true, mode: PolicyEvaluationMode::Enforcement },
    )
    .unwrap_err();
    assert_eq!(all.len(), 2);
    assert!(all[1].to_string().contains("issue does not have label \"ui\""));
    let guidance = evaluate_policies_report(
        &ctx,
        &policies(),
        &PolicyEvaluationOptions { collect_all_violations: true, mode: PolicyEvaluationMode::Guidance },
    );
    assert!(guidance.violations.is_empty());
    assert!(evaluate_policies(&ctx, &Vec::new()).is_ok());
    let fine = vec![policies().pop().unwrap()];
    assert!(evaluate_policies(&ctx, &fine).is_ok());
    assert!(evaluate_policies_with_options(&ctx, &fine, &PolicyEvaluationOptions::default())
        .unwrap()
        .is_empty());
}

#[test]
fn steps_without_definition_are_reported_before_anything_runs() {
    let ctx = plain();
    let mut documents = policies();
    documents[1].scenarios[0].steps.push(step(StepType::Then, "explain \"why\""));
    documents[1].scenarios[0].steps.push(step(StepType::Then, "the sky is blue"));
    let found = validate_policy_documents(&ctx, &documents);
    assert_eq!(found.len(), 2);
    assert!(found[0].to_string().contains("no matching step definition for: explain \"why\""));
    assert!(found[1].to_string().contains("Failed: Then the sky is blue"));
    assert!(validate_policy_documents(&ctx, &policies()).is_empty());
    let first = evaluate_policies(&ctx, &documents).unwrap_err();
    assert!(first.to_string().contains("Scenario: Descriptions"));
    let all = evaluate_policies_report(
        &ctx,
        &documents,
        &PolicyEvaluationOptions { collect_all_violations: true, mode: PolicyEvaluationMode::Enforcement },
    );
    assert_eq!(all.violations.len(), 5);
}

#[test]
fn guidance_for_an_issue_is_gathered_in_guidance_mode() {
    let empty = collect_guidance_for_issue(
        &issue("tsk-1", "open", None),
        PolicyOperation::Update,
        &Vec::new(),
        configuration(),
        Vec::new(),
    );
    assert!(empty.violations.is_empty());
    assert!(empty.guidance_items.is_empty());
    let mut documents = policies();
    documents[0].scenarios[0].steps.push(step(StepType::Then, "no such step"));
    let report = collect_guidance_for_issue(
        &issue("tsk-1", "open", None),
        PolicyOperation::Update,
        &documents,
        configuration(),
        vec![issue("tsk-1", "open", None)],
    );
    assert_eq!(report.violations.len(), 2);
    assert!(report.violations[0].to_string().contains("no matching step definition for: no such step"));
}
