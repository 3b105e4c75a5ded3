use kanbus::config_loader::{has_duplicate_names, validate_project_configuration};
use kanbus::error::{KanbusError, PolicyViolationDetails};
use kanbus::migration::{load_beads_issue_by_id, validate_issue_type, validate_status};
use kanbus::models::{
    IssueData, PriorityDefinition, ProjectConfiguration, StatusRule, Timestamp, Workflow,
};
use kanbus::policy_context::{PolicyContext, PolicyOperation, StatusTransition};
use kanbus::policy_evaluator::{
    dedupe_and_sort_guidance, guidance_before, is_explain_step, policy_violation, same_guidance,
    GuidanceItem, GuidanceSeverity, PolicyEvaluationMode, PolicyEvaluationOptions,
    PolicyEvaluationReport,
};
use kanbus::policy_guidance::{
    emit_guidance_for_issues, guidance_enabled, guidance_for_violation,
    sorted_deduped_guidance_items,
};

fn issue(identifier: &str, status: &str, parent: Option<&str>) -> IssueData {
    let stamp = Timestamp { seconds: 0, nanos: 0 };
    IssueData {
        identifier: identifier.to_string(),
        title: "Title".to_string(),
        description: String::new(),
        issue_type: "task".to_string(),
        status: status.to_string(),
        priority: 2,
        assignee: None,
        creator: None,
        parent: parent.map(str::to_string),
        labels: Vec::new(),
        dependencies: Vec::new(),
        comments: Vec::new(),
        created_at: stamp,
        updated_at: stamp,
        closed_at: None,
        custom: Vec::new(),
    }
}

fn configuration() -> ProjectConfiguration {
    ProjectConfiguration {
        project_directory: "project".to_string(),
        project_key: "tsk".to_string(),
        hierarchy: vec!["initiative".to_string(), "epic".to_string(), "task".to_string()],
        types: vec!["bug".to_string(), "story".to_string()],
        workflows: vec![Workflow {
            name: "default".to_string(),
            transitions: vec![
                StatusRule {
                    from: "open".to_string(),
                    to: vec!["in_progress".to_string(), "closed".to_string()],
                },
                StatusRule { from: "in_progress".to_string(), to: vec!["blocked".to_string()] },
            ],
        }],
        priorities: vec![
            PriorityDefinition { level: 0, name: "critical".to_string(), color: None },
            PriorityDefinition { level: 2, name: "medium".to_string(), color: None },
        ],
        default_priority: 2,
        statuses: Vec::new(),
        type_colors: Vec::new(),
        console_port: None,
    }
}

fn context(proposed: IssueData, transition: Option<(&str, &str)>) -> PolicyContext {
    PolicyContext {
        current_issue: None,
        proposed_issue: proposed,
        transition: transition
            .map(|(from, to)| StatusTransition { from: from.to_string(), to: to.to_string() }),
        operation: PolicyOperation::Update,
        project_configuration: configuration(),
        all_issues: vec![
            issue("tsk-parent", "open", None),
            issue("tsk-a", "open", Some("tsk-parent")),
            issue("tsk-x", "open", Some("tsk-other")),
            issue("tsk-b", "closed", Some("tsk-parent")),
            issue("tsk-orphan", "open", None),
        ],
    }
}

fn guidance(severity: GuidanceSeverity, file: &str, scenario: &str, step: &str, message: &str) -> GuidanceItem {
    GuidanceItem {
        severity,
        message: message.to_string(),
        explanations: Vec::new(),
        policy_file: file.to_string(),
        scenario: scenario.to_string(),
        step: step.to_string(),
    }
}

#[test]
fn context_answers_for_the_proposed_issue() {
    let moving = context(issue("tsk-parent", "closed", None), Some(("open", "closed")));
    assert_eq!(moving.issue().identifier, "tsk-parent");
    assert_eq!(moving.issue().status, "closed");
    assert!(moving.is_transition());
    assert!(moving.is_transitioning_to("closed"));
    assert!(!moving.is_transitioning_to("open"));
    assert!(moving.is_transitioning_from("open"));
    assert!(!moving.is_transitioning_from("closed"));
    let still = context(issue("tsk-parent", "open", None), None);
    assert!(!still.is_transition());
    assert!(!still.is_transitioning_to("open"));
    assert!(!still.is_transitioning_from("open"));
}

#[test]
fn context_finds_children_and_parent() {
    let parent = context(issue("tsk-parent", "open", None), None);
    let children: Vec<&str> =
        parent.child_issues().iter().map(|child| child.identifier.as_str()).collect();
    assert_eq!(children, vec!["tsk-a", "tsk-b"]);
    assert!(parent.parent_issue().is_none());
    let child = context(issue("tsk-a", "open", Some("tsk-parent")), None);
    assert!(child.child_issues().is_empty());
    assert_eq!(child.parent_issue().unwrap().identifier, "tsk-parent");
    let lost = context(issue("tsk-l", "open", Some("tsk-gone")), None);
    assert!(lost.parent_issue().is_none());
}

#[test]
fn valid_configuration_has_no_complaints() {
    assert!(validate_project_configuration(&configuration()).is_empty());
}

#[test]
fn configuration_complaints_come_in_the_order_of_the_rules() {
    let mut broken = configuration();
    broken.project_directory = "  ".to_string();
    broken.hierarchy = Vec::new();
    broken.types = vec!["bug".to_string(), "bug".to_string()];
    broken.workflows[0].name = "Default".to_string();
    broken.default_priority = 1;
    assert_eq!(
        validate_project_configuration(&broken),
        vec![
            "project_directory must not be empty",
            "hierarchy must not be empty",
            "duplicate type name",
            "default workflow is required",
            "default priority must be in priorities map",
        ]
    );
    let mut clash = configuration();
    clash.types.push("epic".to_string());
    assert_eq!(validate_project_configuration(&clash), vec!["duplicate type name"]);
    let mut no_workflow = configuration();
    no_workflow.workflows.clear();
    assert_eq!(validate_project_configuration(&no_workflow), vec!["default workflow is required"]);
}

#[test]
fn duplicates_are_found_among_names() {
    let names = |list: &[&str]| list.iter().map(|name| name.to_string()).collect::<Vec<String>>();
    assert!(!has_duplicate_names(&names(&[])));
    assert!(!has_duplicate_names(&names(&["a", "b", "A"])));
    assert!(has_duplicate_names(&names(&["a", "b", "a"])));
    assert!(has_duplicate_names(&names(&["b", "b"])));
}

#[test]
fn issue_types_and_statuses_are_checked_against_the_configuration() {
    let config = configuration();
    assert!(validate_issue_type(&config, "epic").is_ok());
    assert!(validate_issue_type(&config, "story").is_ok());
    assert_eq!(validate_issue_type(&config, "chore").unwrap_err().to_string(), "unknown issue type");
    let workflow = &config.workflows[0];
    assert!(validate_status(workflow, "open").is_ok());
    assert!(validate_status(workflow, "closed").is_ok());
    assert!(validate_status(workflow, "blocked").is_ok());
    assert_eq!(validate_status(workflow, "done").unwrap_err().to_string(), "invalid status");
}

#[test]
fn beads_issue_is_found_by_identifier() {
    let issues = vec![issue("bd-1", "open", None), issue("bd-2", "closed", None), issue("bd-2", "open", None)];
    assert_eq!(load_beads_issue_by_id(issues.clone(), "bd-2").unwrap().status, "closed");
    assert_eq!(load_beads_issue_by_id(issues, "bd-3").unwrap_err().to_string(), "not found");
}

#[test]
fn explain_steps_are_recognised() {
    assert!(is_explain_step("explain \"why\""));
    assert!(is_explain_step("explain \"\""));
    assert!(is_explain_step("explain \""));
    assert!(!is_explain_step("explain why"));
    assert!(!is_explain_step("Explain \"why\""));
    assert!(!is_explain_step("explain \"why\" "));
}

#[test]
fn guidance_is_ordered_warnings_first_then_by_its_texts() {
    let a = guidance(GuidanceSeverity::Suggestion, "a.policy", "s", "st", "m");
    let b = guidance(GuidanceSeverity::Warning, "z.policy", "s", "st", "m");
    let c = guidance(GuidanceSeverity::Warning, "b.policy", "t", "st", "m");
    let d = guidance(GuidanceSeverity::Warning, "b.policy", "s", "su", "m");
    let e = guidance(GuidanceSeverity::Warning, "b.policy", "s", "st", "n");
    let f = guidance(GuidanceSeverity::Warning, "b.policy", "s", "st", "m");
    assert!(guidance_before(&b, &a));
    assert!(!guidance_before(&a, &b));
    assert!(guidance_before(&f, &e));
    assert!(guidance_before(&e, &d));
    assert!(guidance_before(&d, &c));
    assert!(guidance_before(&c, &b));
    assert!(!guidance_before(&f, &f));
    let sorted = dedupe_and_sort_guidance(&vec![a.clone(), b.clone(), c, d, e, f.clone(), a, f]);
    let order: Vec<(String, String, String, String)> = sorted
        .iter()
        .map(|item| {
            (item.policy_file.clone(), item.scenario.clone(), item.step.clone(), item.message.clone())
        })
        .collect();
    let name = |f: &str, s: &str, st: &str, m: &str| {
        (f.to_string(), s.to_string(), st.to_string(), m.to_string())
    };
    assert_eq!(
        order,
        vec![
            name("b.policy", "s", "st", "m"),
            name("b.policy", "s", "st", "n"),
            name("b.policy", "s", "su", "m"),
            name("b.policy", "t", "st", "m"),
            name("z.policy", "s", "st", "m"),
            name("a.policy", "s", "st", "m"),
        ]
    );
    assert_eq!(sorted[5].severity, GuidanceSeverity::Suggestion);
}

#[test]
fn guidance_that_differs_only_in_explanations_stays_as_it_came() {
    let mut first = guidance(GuidanceSeverity::Warning, "p", "s", "st", "m");
    first.explanations = vec!["one".to_string()];
    let mut second = guidance(GuidanceSeverity::Warning, "p", "s", "st", "m");
    second.explanations = vec!["two".to_string()];
    assert!(!same_guidance(&first, &second));
    assert!(same_guidance(&first, &first.clone()));
    let sorted = sorted_deduped_guidance_items(&vec![second.clone(), first.clone(), second.clone()]);
    assert_eq!(sorted.len(), 2);
    assert_eq!(sorted[0].explanations, vec!["two"]);
    assert_eq!(sorted[1].explanations, vec!["one"]);
    assert!(sorted_deduped_guidance_items(&Vec::new()).is_empty());
}

#[test]
fn violation_carries_sorted_guidance_lines() {
    let mut warning = guidance(GuidanceSeverity::Warning, "p", "s", "st", "careful");
    warning.explanations = vec!["because".to_string()];
    let suggestion = guidance(GuidanceSeverity::Suggestion, "a", "s", "st", "maybe");
    let violation = policy_violation(
        "rules.policy",
        "Scenario",
        "Then x",
        "failed",
        "tsk-1",
        vec!["explained".to_string()],
        vec![suggestion, warning.clone(), warning],
    );
    match violation {
        KanbusError::PolicyViolation {
            policy_file,
            scenario,
            failed_step,
            message,
            issue_id,
            details,
        } => {
            assert_eq!(policy_file, "rules.policy");
            assert_eq!(scenario, "Scenario");
            assert_eq!(failed_step, "Then x");
            assert_eq!(message, "failed");
            assert_eq!(issue_id, "tsk-1");
            assert_eq!(details.explanations, vec!["explained"]);
            assert_eq!(
                details.guidance,
                vec!["GUIDANCE WARNING: careful", "Explanation: because", "GUIDANCE SUGGESTION: maybe"]
            );
        }
        _ => panic!("a policy violation was asked for"),
    }
}

#[test]
fn guidance_switch_is_read_trimmed_and_in_any_case() {
    assert!(guidance_enabled(false, None));
    assert!(guidance_enabled(false, Some("")));
    assert!(guidance_enabled(false, Some("0")));
    assert!(guidance_enabled(false, Some("off")));
    assert!(!guidance_enabled(true, None));
    assert!(!guidance_enabled(false, Some("1")));
    assert!(!guidance_enabled(false, Some(" TRUE ")));
    assert!(!guidance_enabled(false, Some("yes")));
    assert!(!guidance_enabled(false, Some("On\n")));
}

#[test]
fn violations_met_while_gathering_guidance_become_warnings() {
    let violation = KanbusError::PolicyViolation {
        policy_file: "rules.policy".to_string(),
        scenario: "S".to_string(),
        failed_step: "Then y".to_string(),
        message: "no matching step definition for: y".to_string(),
        issue_id: "tsk-1".to_string(),
        details: PolicyViolationDetails::default(),
    };
    let item = guidance_for_violation(&violation);
    assert_eq!(item.severity, GuidanceSeverity::Warning);
    assert_eq!(item.message, "Guidance policy error (rules.policy / S): no matching step definition for: y");
    assert_eq!(item.explanations, vec!["Run \"kbs policy validate\" to fix this policy definition."]);
    assert_eq!(item.policy_file, "rules.policy");
    assert_eq!(item.scenario, "S");
    assert_eq!(item.step, "Then y");
    let other = guidance_for_violation(&KanbusError::Configuration("broken".to_string()));
    assert_eq!(other.message, "broken");
    assert_eq!(other.policy_file, "unknown");
    assert_eq!(other.scenario, "unknown");
    assert_eq!(other.step, "unknown");
}

#[test]
fn guidance_lines_are_put_out_in_order_with_explanations() {
    let mut suggestion = guidance(GuidanceSeverity::Suggestion, "a", "s", "st", "add labels");
    suggestion.explanations = vec!["labels help".to_string(), "really".to_string()];
    let warning = guidance(GuidanceSeverity::Warning, "z", "s", "st", "no owner");
    let reports = vec![
        PolicyEvaluationReport { violations: Vec::new(), guidance_items: vec![suggestion.clone()] },
        PolicyEvaluationReport {
            violations: vec![KanbusError::Io("unreadable".to_string())],
            guidance_items: vec![warning, suggestion],
        },
    ];
    assert_eq!(
        emit_guidance_for_issues(&reports, true),
        vec![
            "GUIDANCE WARNING: unreadable",
            "  Explanation: Run \"kbs policy validate\" to fix this policy definition.",
            "GUIDANCE WARNING: no owner",
            "GUIDANCE SUGGESTION: add labels",
            "  Explanation: labels help",
            "  Explanation: really",
        ]
    );
    assert!(emit_guidance_for_issues(&reports, false).is_empty());
    assert!(emit_guidance_for_issues(&Vec::new(), true).is_empty());
}

#[test]
fn evaluation_defaults_to_enforcement() {
    assert_eq!(PolicyEvaluationMode::default(), PolicyEvaluationMode::Enforcement);
    let options = PolicyEvaluationOptions::default();
    assert!(!options.collect_all_violations);
    assert_eq!(options.mode, PolicyEvaluationMode::Enforcement);
    let report = PolicyEvaluationReport::default();
    assert!(report.violations.is_empty());
    assert!(report.guidance_items.is_empty());
}
