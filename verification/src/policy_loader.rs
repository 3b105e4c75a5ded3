//! Taking up the policy files of a project.

use crate::error::{KanbusError, KanbusErrorView};
use crate::models::{option_text, or_text};
use crate::policy_engine::{PolicyFeature, PolicyScenario, PolicyStep, StepType};
use crate::text::{chars_of, ends_with, ends_with_chars, owned, push_str, string_of};
use vstd::prelude::*;

verus! {

/// The extension that marks a policy file.
pub const POLICY_FILE_SUFFIX: &'static str = ".policy";

/// Whether a file name carries the `policy` extension: it ends in `.policy`
/// and has a stem before it.
pub open spec fn is_policy_file(name: Seq<char>) -> bool {
    name.len() > POLICY_FILE_SUFFIX@.len() && ends_with(name, POLICY_FILE_SUFFIX@)
}

/// Executable form of [`is_policy_file`].
pub fn is_policy_file_name(name: &str) -> (out: bool)
    ensures
        out == is_policy_file(name@),
{
    let text = chars_of(name);
    let suffix = chars_of(POLICY_FILE_SUFFIX);
    text.len() > suffix.len() && ends_with_chars(&text, &suffix)
}

/// Mathematical content of a step.
pub struct StepView {
    pub ty: StepType,
    pub value: Seq<char>,
}

/// Mathematical content of a scenario.
pub struct ScenarioView {
    pub name: Seq<char>,
    pub steps: Seq<StepView>,
}

/// Mathematical content of a policy.
pub struct FeatureView {
    pub file_name: Seq<char>,
    pub scenarios: Seq<ScenarioView>,
}

/// The content of a scenario.
pub open spec fn scenario_view(scenario: PolicyScenario) -> ScenarioView {
    ScenarioView {
        name: scenario.name@,
        steps: Seq::new(
            scenario.steps.len() as nat,
            |i: int| StepView { ty: scenario.steps[i].ty, value: scenario.steps[i].value@ },
        ),
    }
}

/// The content of a list of scenarios.
pub open spec fn scenario_views(scenarios: Seq<PolicyScenario>) -> Seq<ScenarioView> {
    Seq::new(scenarios.len(), |i: int| scenario_view(scenarios[i]))
}

/// The content of a list of policies.
pub open spec fn feature_views(features: Seq<PolicyFeature>) -> Seq<FeatureView> {
    Seq::new(
        features.len(),
        |i: int|
            FeatureView {
                file_name: features[i].file_name@,
                scenarios: scenario_views(features[i].scenarios@),
            },
    )
}

/// One policy file as it was read and parsed: its path, its name where the
/// name can be written as text, and its scenarios, or `None` where its
/// content is no feature.
#[derive(Debug)]
pub struct PolicyDocument {
    pub path: String,
    pub file_name: Option<String>,
    pub scenarios: Option<Vec<PolicyScenario>>,
}

/// Mathematical content of [`PolicyDocument`].
pub struct DocumentView {
    pub path: Seq<char>,
    pub file_name: Option<Seq<char>>,
    pub scenarios: Option<Seq<ScenarioView>>,
}

impl View for PolicyDocument {
    type V = DocumentView;

    open spec fn view(&self) -> DocumentView {
        DocumentView {
            path: self.path@,
            file_name: option_text(self.file_name),
            scenarios: match self.scenarios {
                Some(scenarios) => Some(scenario_views(scenarios@)),
                None => None,
            },
        }
    }
}

impl DeepView for PolicyDocument {
    type V = DocumentView;

    open spec fn deep_view(&self) -> DocumentView {
        self@
    }
}

/// The error for a policy file whose content is no feature.
pub open spec fn parse_failure(path: Seq<char>) -> KanbusErrorView {
    KanbusErrorView::Configuration(
        "failed to parse "@ + path + ": Could not parse feature file: "@ + path,
    )
}

/// The policies that documents give, in their order: each goes by the name
/// of its file, or by `unknown` where that cannot be written. The first
/// document whose content is no feature fails the whole.
pub open spec fn taken_up(documents: Seq<DocumentView>) -> Result<Seq<FeatureView>, KanbusErrorView>
    decreases documents.len(),
{
    if documents.len() == 0 {
        Ok(Seq::empty())
    } else {
        match taken_up(documents.drop_last()) {
            Err(error) => Err(error),
            Ok(features) => match documents.last().scenarios {
                None => Err(parse_failure(documents.last().path)),
                Some(scenarios) => Ok(
                    features.push(
                        FeatureView {
                            file_name: or_text(documents.last().file_name, "unknown"@),
                            scenarios,
                        },
                    ),
                ),
            },
        }
    }
}

/// A failure among the first documents is the failure of the whole.
proof fn lemma_failure_stays(documents: Seq<DocumentView>, n: int)
    requires
        0 <= n <= documents.len(),
        taken_up(documents.take(n)) is Err,
    ensures
        taken_up(documents) == taken_up(documents.take(n)),
    decreases documents.len() - n,
{
    if n == documents.len() {
        assert(documents.take(n) == documents);
    } else {
        assert(documents.drop_last().take(n) == documents.take(n));
        lemma_failure_stays(documents.drop_last(), n);
    }
}

/// What taking up policies comes to, by its content.
pub open spec fn features_result(out: Result<Vec<PolicyFeature>, KanbusError>) -> Result<
    Seq<FeatureView>,
    KanbusErrorView,
> {
    match out {
        Ok(features) => Ok(feature_views(features@)),
        Err(error) => Err(error@),
    }
}

/// Takes up the policies of the documents that were read and parsed.
pub fn take_up_policies(documents: Vec<PolicyDocument>) -> (out: Result<
    Vec<PolicyFeature>,
    KanbusError,
>)
    ensures
        features_result(out) == taken_up(documents.deep_view()),
{
    broadcast use vstd::std_specs::vec::axiom_spec_into_iter;

    let ghost all = documents.deep_view();
    let ghost raw = documents@;
    let mut features: Vec<PolicyFeature> = Vec::new();
    proof {
        assert(all.take(0) =~= Seq::<DocumentView>::empty());
        assert(feature_views(features@) =~= Seq::<FeatureView>::empty());
    }
    for document in it: documents.into_iter()
        invariant
            it.seq() == raw,
            all == documents.deep_view(),
            all.len() == raw.len(),
            forall|k: int| 0 <= k < raw.len() ==> #[trigger] all[k] == raw[k]@,
            taken_up(all.take(it.index() as int)) == Ok::<Seq<FeatureView>, KanbusErrorView>(
                feature_views(features@),
            ),
    {
        proof {
            let next = all.take(it.index() + 1);
            assert(next.drop_last() == all.take(it.index() as int));
            assert(next.last() == document@);
        }
        let scenarios = match document.scenarios {
            Some(scenarios) => scenarios,
            None => {
                let mut message = chars_of("failed to parse ");
                push_str(&mut message, document.path.as_str());
                push_str(&mut message, ": Could not parse feature file: ");
                push_str(&mut message, document.path.as_str());
                proof {
                    lemma_failure_stays(all, it.index() + 1);
                }
                return Err(KanbusError::Configuration(string_of(&message)));
            },
        };
        let file_name = match document.file_name {
            Some(name) => name,
            None => owned("unknown"),
        };
        let ghost before = feature_views(features@);
        let ghost added = FeatureView {
            file_name: file_name@,
            scenarios: scenario_views(scenarios@),
        };
        features.push(PolicyFeature { file_name, scenarios });
        proof {
            assert(feature_views(features@) =~= before.push(added));
        }
    }
    proof {
        assert(all.take(all.len() as int) == all);
    }
    Ok(features)
}

/// One file of the policies directory: its path, its name where the name
/// can be written as text, and what it holds.
#[derive(Debug)]
pub struct PolicyFile {
    pub path: String,
    pub file_name: Option<String>,
    pub contents: String,
}

/// Mathematical content of [`PolicyFile`].
pub struct FileView {
    pub path: Seq<char>,
    pub file_name: Option<Seq<char>>,
    pub contents: Seq<char>,
}

impl View for PolicyFile {
    type V = FileView;

    open spec fn view(&self) -> FileView {
        FileView {
            path: self.path@,
            file_name: option_text(self.file_name),
            contents: self.contents@,
        }
    }
}

impl DeepView for PolicyFile {
    type V = FileView;

    open spec fn deep_view(&self) -> FileView {
        self@
    }
}

/// The scenarios of the feature that a text writes in Gherkin, where it
/// writes one.
pub uninterp spec fn gherkin_scenarios(text: Seq<char>) -> Option<Seq<ScenarioView>>;

/// Reads a text as a feature and hands back its scenarios with their steps.
///
/// Trusted: calls `gherkin::Feature::parse` with the default environment,
/// whose keywords are the English ones, and copies name, steps, step types
/// and step texts out of the feature's own scenarios. The parser reads
/// nothing but its argument; what it gives is named `gherkin_scenarios`.
#[verifier::external_body]
fn parse_feature(text: &str) -> (out: Option<Vec<PolicyScenario>>)
    ensures
        (match out {
            Some(scenarios) => Some(scenario_views(scenarios@)),
            None => None,
        }) == gherkin_scenarios(text@),
{
    let feature = gherkin::Feature::parse(text, gherkin::GherkinEnv::default()).ok()?;
    Some(feature.scenarios.into_iter().map(|scenario| PolicyScenario {
        name: scenario.name,
        steps: scenario.steps.into_iter().map(|step| PolicyStep {
            ty: match step.ty {
                gherkin::StepType::Given => StepType::Given,
                gherkin::StepType::When => StepType::When,
                gherkin::StepType::Then => StepType::Then,
            },
            value: step.value,
        }).collect(),
    }).collect())
}

/// Whether a file of the policies directory is a policy file.
pub open spec fn is_policy(file: FileView) -> bool {
    file.file_name matches Some(name) && is_policy_file(name)
}

/// The documents that the files of the policies directory give: one for
/// each policy file, in order, with the scenarios that its content writes.
pub open spec fn documents_of(files: Seq<FileView>) -> Seq<DocumentView>
    decreases files.len(),
{
    if files.len() == 0 {
        Seq::empty()
    } else if is_policy(files.last()) {
        documents_of(files.drop_last()).push(
            DocumentView {
                path: files.last().path,
                file_name: files.last().file_name,
                scenarios: gherkin_scenarios(files.last().contents),
            },
        )
    } else {
        documents_of(files.drop_last())
    }
}

/// Parses the policy files among the files of the policies directory.
pub fn parse_policy_files(files: Vec<PolicyFile>) -> (out: Vec<PolicyDocument>)
    ensures
        out.deep_view() == documents_of(files.deep_view()),
{
    broadcast use vstd::std_specs::vec::axiom_spec_into_iter;

    let ghost all = files.deep_view();
    let ghost raw = files@;
    let mut documents: Vec<PolicyDocument> = Vec::new();
    proof {
        assert(all.take(0) =~= Seq::<FileView>::empty());
        assert(documents.deep_view() =~= Seq::<DocumentView>::empty());
    }
    for file in it: files.into_iter()
        invariant
            it.seq() == raw,
            all.len() == raw.len(),
            forall|k: int| 0 <= k < raw.len() ==> #[trigger] all[k] == raw[k]@,
            documents.deep_view() == documents_of(all.take(it.index() as int)),
    {
        proof {
            let next = all.take(it.index() + 1);
            assert(next.drop_last() == all.take(it.index() as int));
            assert(next.last() == file@);
        }
        let wanted = match &file.file_name {
            Some(name) => is_policy_file_name(name.as_str()),
            None => false,
        };
        if wanted {
            let scenarios = parse_feature(file.contents.as_str());
            let ghost before = documents.deep_view();
            let document = PolicyDocument {
                path: file.path,
                file_name: file.file_name,
                scenarios,
            };
            documents.push(document);
            proof {
                assert(documents.deep_view() =~= before.push(document@));
            }
        }
    }
    proof {
        assert(all.take(all.len() as int) == all);
    }
    documents
}

/// Loads the policies of a project from the files of its policies
/// directory: every policy file is parsed, and the first whose content is no
/// feature fails the whole.
pub fn load_policies(files: Vec<PolicyFile>) -> (out: Result<Vec<PolicyFeature>, KanbusError>)
    ensures
        features_result(out) == taken_up(documents_of(files.deep_view())),
{
    take_up_policies(parse_policy_files(files))
}

} // verus!
