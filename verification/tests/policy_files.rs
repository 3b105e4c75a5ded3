use gherkin::{Feature, GherkinEnv};
use kanbus::error::KanbusError;
use kanbus::policy_engine::{PolicyScenario, PolicyStep, StepType};
use kanbus::policy_steps::{find_step, StepCategory, StepRegistry};
use regex::Regex;
use kanbus::policy_loader::{
    is_policy_file_name, load_policies, parse_policy_files, take_up_policies, PolicyDocument,
    PolicyFile,
};
use std::path::Path;

fn scenarios_of(text: &str) -> Option<Vec<PolicyScenario>> {
    let feature = Feature::parse(text, GherkinEnv::default()).ok()?;
    Some(
        feature
            .scenarios
            .into_iter()
            .map(|scenario| PolicyScenario {
                name: scenario.name,
                steps: scenario
                    .steps
                    .into_iter()
                    .map(|step| PolicyStep {
                        ty: match step.ty {
                            gherkin::StepType::Given => StepType::Given,
                            gherkin::StepType::When => StepType::When,
                            gherkin::StepType::Then => StepType::Then,
                        },
                        value: step.value,
                    })
                    .collect(),
            })
            .collect(),
    )
}

fn document(path: &str, name: Option<&str>, text: &str) -> PolicyDocument {
    PolicyDocument {
        path: path.to_string(),
        file_name: name.map(str::to_string),
        scenarios: scenarios_of(text),
    }
}

const POLICY: &str = "Feature: Tasks\n  Scenario: Closing needs a description\n    \
    Given the issue type is \"task\"\n    When closing an issue\n    \
    Then the description must not be empty\n";

#[test]
fn policy_files_are_those_with_the_policy_extension() {
    for name in ["a.policy", "a.b.policy", "..policy", "é.policy", ".policy", "policy", "a.policy ", "a.Policy", "a.policyx", ""] {
        let expected = Path::new(name).extension().and_then(|ext| ext.to_str()) == Some("policy");
        assert_eq!(is_policy_file_name(name), expected, "name {name:?}");
    }
    assert!(is_policy_file_name("rules.policy"));
    assert!(!is_policy_file_name(".policy"));
}

fn file(path: &str, name: Option<&str>, text: &str) -> PolicyFile {
    PolicyFile {
        path: path.to_string(),
        file_name: name.map(str::to_string),
        contents: text.to_string(),
    }
}

#[test]
fn policy_files_are_parsed_and_other_files_left_out() {
    let files = vec![
        file("/p/policies/a.policy", Some("a.policy"), POLICY),
        file("/p/policies/notes.txt", Some("notes.txt"), POLICY),
        file("/p/policies/odd", None, POLICY),
        file("/p/policies/b.policy", Some("b.policy"), "no feature"),
        file("/p/policies/c.policy", Some("c.policy"), POLICY.trim_end()),
    ];
    let documents = parse_policy_files(files);
    assert_eq!(documents.len(), 3);
    assert_eq!(documents[0].path, "/p/policies/a.policy");
    assert_eq!(documents[0].file_name.as_deref(), Some("a.policy"));
    let expected = scenarios_of(POLICY).unwrap();
    let parsed = documents[0].scenarios.as_ref().unwrap();
    assert_eq!(parsed.len(), expected.len());
    assert_eq!(parsed[0].name, expected[0].name);
    assert_eq!(parsed[0].steps.len(), 3);
    for (ours, theirs) in parsed[0].steps.iter().zip(expected[0].steps.iter()) {
        assert_eq!(ours.ty, theirs.ty);
        assert_eq!(ours.value, theirs.value);
    }
    assert!(documents[1].scenarios.is_none());
    assert_eq!(documents[2].scenarios.as_ref().unwrap().len(), 1);
}

#[test]
fn policies_are_loaded_from_the_files_of_their_directory() {
    let features = load_policies(vec![
        file("/p/policies/z.policy", Some("z.policy"), POLICY),
        file("/p/policies/readme.md", Some("readme.md"), "no feature"),
    ])
    .unwrap();
    assert_eq!(features.len(), 1);
    assert_eq!(features[0].file_name, "z.policy");
    assert_eq!(features[0].scenarios[0].steps[1].value, "closing an issue");
    match load_policies(vec![file("/p/x.policy", Some("x.policy"), "Scenario without feature")]) {
        Err(KanbusError::Configuration(message)) => assert_eq!(
            message,
            "failed to parse /p/x.policy: Could not parse feature file: /p/x.policy"
        ),
        _ => panic!("expected a configuration error"),
    }
    assert!(load_policies(Vec::new()).unwrap().is_empty());
}

#[test]
fn policies_are_taken_up_in_the_order_of_their_documents() {
    let documents = vec![
        document("/p/policies/a.policy", Some("a.policy"), POLICY),
        document("/p/policies/b.policy", None, "Feature: Empty\n"),
    ];
    let features = take_up_policies(documents).unwrap();
    assert_eq!(features.len(), 2);
    assert_eq!(features[0].file_name, "a.policy");
    assert_eq!(features[0].scenarios.len(), 1);
    assert_eq!(features[0].scenarios[0].name, "Closing needs a description");
    let steps = &features[0].scenarios[0].steps;
    assert_eq!(steps.len(), 3);
    assert_eq!(steps[0].ty, StepType::Given);
    assert_eq!(steps[0].value, "the issue type is \"task\"");
    assert_eq!(steps[1].ty, StepType::When);
    assert_eq!(steps[2].ty, StepType::Then);
    assert_eq!(steps[2].value, "the description must not be empty");
    assert_eq!(features[1].file_name, "unknown");
    assert!(features[1].scenarios.is_empty());
    assert!(take_up_policies(Vec::new()).unwrap().is_empty());
}

#[test]
fn the_first_document_that_is_no_feature_fails_the_whole() {
    let documents = vec![
        document("/p/a.policy", Some("a.policy"), POLICY),
        document("/p/b.policy", Some("b.policy"), "this is no feature"),
        document("/p/c.policy", Some("c.policy"), "neither is this"),
    ];
    match take_up_policies(documents) {
        Err(KanbusError::Configuration(message)) => assert_eq!(
            message,
            "failed to parse /p/b.policy: Could not parse feature file: /p/b.policy"
        ),
        _ => panic!("expected a configuration error"),
    }
}

const PATTERNS: [(&str, &str, &str); 22] = [
    ("Filter by issue type", "the issue type is \"TYPE\"", r#"^the issue type is "([^"]+)"$"#),
    ("Filter by label presence", "the issue has label \"LABEL\"", r#"^the issue has label "([^"]+)"$"#),
    ("Filter by parent presence", "the issue has a parent", r"^the issue has a parent$"),
    ("Filter by priority", "the issue priority is N", r"^the issue priority is (\d+)$"),
    (
        "Filter by custom field presence",
        "the custom field \"FIELD\" is set",
        r#"^the custom field "([^"]+)" is set$"#,
    ),
    ("Filter by transition target", "transitioning to \"STATUS\"", r#"^transitioning to "([^"]+)"$"#),
    ("Filter by transition source", "transitioning from \"STATUS\"", r#"^transitioning from "([^"]+)"$"#),
    (
        "Filter by specific transition",
        "transitioning from \"A\" to \"B\"",
        r#"^transitioning from "([^"]+)" to "([^"]+)"$"#,
    ),
    ("Filter by create operation", "creating an issue", r"^creating an issue$"),
    ("Filter by close operation", "closing an issue", r"^closing an issue$"),
    ("Assert field is set", "the issue must have field \"FIELD\"", r#"^the issue must have field "([^"]+)"$"#),
    (
        "Assert field is not set",
        "the issue must not have field \"FIELD\"",
        r#"^the issue must not have field "([^"]+)"$"#,
    ),
    (
        "Assert field equals value",
        "the field \"FIELD\" must be \"VALUE\"",
        r#"^the field "([^"]+)" must be "([^"]+)"$"#,
    ),
    (
        "Assert all children have status",
        "all child issues must have status \"STATUS\"",
        r#"^all child issues must have status "([^"]+)"$"#,
    ),
    (
        "Assert no children have status",
        "no child issues may have status \"STATUS\"",
        r#"^no child issues may have status "([^"]+)"$"#,
    ),
    (
        "Assert parent has status",
        "the parent issue must have status \"STATUS\"",
        r#"^the parent issue must have status "([^"]+)"$"#,
    ),
    (
        "Assert minimum label count",
        "the issue must have at least N labels",
        r"^the issue must have at least (\d+) labels?$",
    ),
    ("Assert has specific label", "the issue must have label \"LABEL\"", r#"^the issue must have label "([^"]+)"$"#),
    ("Assert description not empty", "the description must not be empty", r"^the description must not be empty$"),
    (
        "Assert title matches pattern",
        "the title must match pattern \"REGEX\"",
        r#"^the title must match pattern "([^"]+)"$"#,
    ),
    (
        "Assert custom field is set",
        "the custom field \"FIELD\" must be set",
        r#"^the custom field "([^"]+)" must be set$"#,
    ),
    (
        "Assert custom field equals value",
        "the custom field \"FIELD\" must be \"VALUE\"",
        r#"^the custom field "([^"]+)" must be "([^"]+)"$"#,
    ),
];

const STEP_TEXTS: [&str; 30] = [
    "the issue type is \"bug\"",
    "the issue type is \"\"",
    "the issue type is \"a\" ",
    "the issue has label \"x y\"",
    "the issue has a parent",
    "the issue has a parent ",
    "the issue priority is 12",
    "the issue priority is -1",
    "the issue priority is ",
    "the custom field \"f\" is set",
    "the custom field \"f\" must be set",
    "the custom field \"f\" must be \"v\"",
    "the custom field \"f\" must be \"\"",
    "transitioning to \"closed\"",
    "transitioning from \"open\"",
    "transitioning from \"open\" to \"closed\"",
    "transitioning from \"open\" to closed",
    "creating an issue",
    "closing an issue",
    "the issue must have field \"assignee\"",
    "the issue must not have field \"assignee\"",
    "the field \"status\" must be \"open\"",
    "all child issues must have status \"closed\"",
    "no child issues may have status \"open\"",
    "the parent issue must have status \"open\"",
    "the issue must have at least 2 labels",
    "the issue must have at least 1 label",
    "the issue must have at least 1 labelss",
    "the title must match pattern \"^[A-Z]\"",
    "something else",
];

#[test]
fn the_registry_holds_the_built_in_definitions_in_their_order() {
    let registry = StepRegistry::new();
    assert_eq!(registry.steps.len(), PATTERNS.len());
    for (definition, (description, usage, _)) in registry.steps.iter().zip(PATTERNS.iter()) {
        assert_eq!(definition.description, *description);
        assert_eq!(definition.usage_pattern, *usage);
    }
    let categories: Vec<StepCategory> = registry.steps.iter().map(|step| step.category).collect();
    assert!(categories[..5].iter().all(|category| *category == StepCategory::Given));
    assert!(categories[5..10].iter().all(|category| *category == StepCategory::When));
    assert!(categories[10..].iter().all(|category| *category == StepCategory::Then));
    assert_eq!(StepRegistry::default().steps.len(), 22);
}

#[test]
fn definitions_match_what_their_patterns_match() {
    let registry = StepRegistry::new();
    for (definition, (_, _, pattern)) in registry.steps.iter().zip(PATTERNS.iter()) {
        let expression = Regex::new(pattern).unwrap();
        for text in STEP_TEXTS {
            assert_eq!(
                definition.matches(text).is_some(),
                expression.is_match(text),
                "pattern {pattern:?} on {text:?}"
            );
        }
    }
}

#[test]
fn the_registry_finds_the_first_definition_that_matches() {
    let registry = StepRegistry::new();
    for text in STEP_TEXTS {
        let expected = PATTERNS.iter().position(|(_, _, pattern)| Regex::new(pattern).unwrap().is_match(text));
        match (registry.find_step(text), expected) {
            (Some((definition, check)), Some(at)) => {
                assert_eq!(definition.description, PATTERNS[at].0, "text {text:?}");
                assert_eq!(check.category(), definition.category);
                assert_eq!(format!("{check:?}"), format!("{:?}", find_step(text).unwrap()));
            }
            (None, None) => assert!(find_step(text).is_none()),
            (found, expected) => panic!("text {text:?}: {found:?} against {expected:?}"),
        }
    }
}
