//! Error values returned by the library.

use crate::text::{chars_of, push_str, string_of};
use vstd::prelude::*;

verus! {

/// Optional detail attached to a policy violation.
#[derive(Debug)]
pub struct PolicyViolationDetails {
    /// Explanations attached by follow-up explain steps.
    pub explanations: Vec<String>,
    /// Guidance lines attached to this violation.
    pub guidance: Vec<String>,
}

/// Mathematical content of [`PolicyViolationDetails`].
pub struct PolicyViolationDetailsView {
    pub explanations: Seq<Seq<char>>,
    pub guidance: Seq<Seq<char>>,
}

impl View for PolicyViolationDetails {
    type V = PolicyViolationDetailsView;

    open spec fn view(&self) -> PolicyViolationDetailsView {
        PolicyViolationDetailsView {
            explanations: self.explanations.deep_view(),
            guidance: self.guidance.deep_view(),
        }
    }
}

impl Default for PolicyViolationDetails {
    fn default() -> (out: Self)
        ensures
            out@.explanations.len() == 0,
            out@.guidance.len() == 0,
    {
        PolicyViolationDetails { explanations: Vec::new(), guidance: Vec::new() }
    }
}

/// Errors returned by operations of the tracker.
#[derive(Debug)]
pub enum KanbusError {
    /// Initialization failed due to user-facing validation.
    Initialization(String),
    /// An unexpected IO error occurred.
    Io(String),
    /// Issue ID generation failed.
    IdGenerationFailed(String),
    /// Configuration loading or validation failed.
    Configuration(String),
    /// Workflow transition validation failed.
    InvalidTransition(String),
    /// Hierarchy validation failed.
    InvalidHierarchy(String),
    /// Issue operation failed.
    IssueOperation(String),
    /// Protocol validation failed.
    ProtocolError(String),
    /// Policy violation occurred.
    PolicyViolation {
        /// Path to the policy file.
        policy_file: String,
        /// Scenario name that failed.
        scenario: String,
        /// The specific step that failed.
        failed_step: String,
        /// Human-readable explanation.
        message: String,
        /// Issue ID being evaluated.
        issue_id: String,
        /// Optional expanded detail for rendering.
        details: PolicyViolationDetails,
    },
}

/// Mathematical content of [`KanbusError`].
pub enum KanbusErrorView {
    Initialization(Seq<char>),
    Io(Seq<char>),
    IdGenerationFailed(Seq<char>),
    Configuration(Seq<char>),
    InvalidTransition(Seq<char>),
    InvalidHierarchy(Seq<char>),
    IssueOperation(Seq<char>),
    ProtocolError(Seq<char>),
    PolicyViolation {
        policy_file: Seq<char>,
        scenario: Seq<char>,
        failed_step: Seq<char>,
        message: Seq<char>,
        issue_id: Seq<char>,
        details: PolicyViolationDetailsView,
    },
}

impl View for KanbusError {
    type V = KanbusErrorView;

    open spec fn view(&self) -> KanbusErrorView {
        match self {
            KanbusError::Initialization(m) => KanbusErrorView::Initialization(m@),
            KanbusError::Io(m) => KanbusErrorView::Io(m@),
            KanbusError::IdGenerationFailed(m) => KanbusErrorView::IdGenerationFailed(m@),
            KanbusError::Configuration(m) => KanbusErrorView::Configuration(m@),
            KanbusError::InvalidTransition(m) => KanbusErrorView::InvalidTransition(m@),
            KanbusError::InvalidHierarchy(m) => KanbusErrorView::InvalidHierarchy(m@),
            KanbusError::IssueOperation(m) => KanbusErrorView::IssueOperation(m@),
            KanbusError::ProtocolError(m) => KanbusErrorView::ProtocolError(m@),
            KanbusError::PolicyViolation {
                policy_file,
                scenario,
                failed_step,
                message,
                issue_id,
                details,
            } => KanbusErrorView::PolicyViolation {
                policy_file: policy_file@,
                scenario: scenario@,
                failed_step: failed_step@,
                message: message@,
                issue_id: issue_id@,
                details: details@,
            },
        }
    }
}

/// Mathematical content of a text result.
pub open spec fn text_result(out: Result<String, KanbusError>) -> Result<Seq<char>, KanbusErrorView> {
    match out {
        Ok(text) => Ok(text@),
        Err(error) => Err(error@),
    }
}

/// Mathematical content of a result without a value.
pub open spec fn unit_result(out: Result<(), KanbusError>) -> Result<(), KanbusErrorView> {
    match out {
        Ok(_) => Ok(()),
        Err(error) => Err(error@),
    }
}

/// Each item of `items` on a line of its own, behind `lead`.
pub open spec fn prefixed_lines(lead: Seq<char>, items: Seq<Seq<char>>) -> Seq<char>
    decreases items.len(),
{
    if items.len() == 0 {
        Seq::empty()
    } else {
        prefixed_lines(lead, items.drop_last()) + lead + items.last()
    }
}

impl KanbusErrorView {
    /// The text shown to the user for this error.
    pub open spec fn text(self) -> Seq<char> {
        match self {
            KanbusErrorView::Initialization(m) => m,
            KanbusErrorView::Io(m) => m,
            KanbusErrorView::IdGenerationFailed(m) => m,
            KanbusErrorView::Configuration(m) => m,
            KanbusErrorView::InvalidTransition(m) => m,
            KanbusErrorView::InvalidHierarchy(m) => m,
            KanbusErrorView::IssueOperation(m) => m,
            KanbusErrorView::ProtocolError(m) => m,
            KanbusErrorView::PolicyViolation {
                policy_file,
                scenario,
                failed_step,
                message,
                issue_id,
                details,
            } => {
                "policy violation in "@ + policy_file + " for issue "@ + issue_id
                    + "\n  Scenario: "@ + scenario + "\n  Failed: "@ + failed_step + "\n  "@
                    + message + prefixed_lines("\n  Explanation: "@, details.explanations) + (
                if details.guidance.len() == 0 {
                    Seq::<char>::empty()
                } else {
                    "\n  Guidance:"@ + prefixed_lines("\n    "@, details.guidance)
                })
            },
        }
    }
}

/// Appends each item of `items` to `out`, behind `lead`.
fn push_prefixed(out: &mut Vec<char>, lead: &str, items: &Vec<String>)
    ensures
        final(out)@ == old(out)@ + prefixed_lines(lead@, items.deep_view()),
{
    let mut i: usize = 0;
    proof {
        assert(items.deep_view().take(0) == Seq::<Seq<char>>::empty());
        assert(out@ + Seq::<char>::empty() == out@);
    }
    while i < items.len()
        invariant
            i <= items.len(),
            out@ == old(out)@ + prefixed_lines(lead@, items.deep_view().take(i as int)),
        decreases items.len() - i,
    {
        proof {
            let next = items.deep_view().take(i + 1);
            assert(next.drop_last() == items.deep_view().take(i as int));
            assert(next.last() == items@[i as int]@);
            let so_far = prefixed_lines(lead@, items.deep_view().take(i as int));
            assert(old(out)@ + so_far + lead@ + items@[i as int]@ == old(out)@ + (so_far + lead@
                + items@[i as int]@));
        }
        push_str(out, lead);
        push_str(out, items[i].as_str());
        i += 1;
    }
    proof {
        assert(items.deep_view().take(items.len() as int) == items.deep_view());
    }
}

impl KanbusError {
    /// The text shown to the user for this error.
    pub fn to_string(&self) -> (out: String)
        ensures
            out@ == self@.text(),
    {
        match self {
            KanbusError::Initialization(m) => m.clone(),
            KanbusError::Io(m) => m.clone(),
            KanbusError::IdGenerationFailed(m) => m.clone(),
            KanbusError::Configuration(m) => m.clone(),
            KanbusError::InvalidTransition(m) => m.clone(),
            KanbusError::InvalidHierarchy(m) => m.clone(),
            KanbusError::IssueOperation(m) => m.clone(),
            KanbusError::ProtocolError(m) => m.clone(),
            KanbusError::PolicyViolation {
                policy_file,
                scenario,
                failed_step,
                message,
                issue_id,
                details,
            } => {
                let mut out: Vec<char> = chars_of("policy violation in ");
                push_str(&mut out, policy_file.as_str());
                push_str(&mut out, " for issue ");
                push_str(&mut out, issue_id.as_str());
                push_str(&mut out, "\n  Scenario: ");
                push_str(&mut out, scenario.as_str());
                push_str(&mut out, "\n  Failed: ");
                push_str(&mut out, failed_step.as_str());
                push_str(&mut out, "\n  ");
                push_str(&mut out, message.as_str());
                push_prefixed(&mut out, "\n  Explanation: ", &details.explanations);
                if details.guidance.len() > 0 {
                    let ghost before = out@;
                    push_str(&mut out, "\n  Guidance:");
                    push_prefixed(&mut out, "\n    ", &details.guidance);
                    proof {
                        assert(out@ == before + ("\n  Guidance:"@ + prefixed_lines(
                            "\n    "@,
                            details.guidance.deep_view(),
                        )));
                    }
                } else {
                    proof {
                        assert(out@ + Seq::<char>::empty() == out@);
                    }
                }
                string_of(&out)
            },
        }
    }
}

} // verus!
