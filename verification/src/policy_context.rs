//! What a policy sees of a proposed change to an issue.

use crate::models::{IssueData, IssueView, ProjectConfiguration};
use crate::text::same_text;
use vstd::prelude::*;

verus! {

/// Type of operation triggering policy evaluation.
#[derive(Debug, Clone, Copy, PartialEq, Eq, Structural)]
pub enum PolicyOperation {
    /// Issue is being created.
    Create,
    /// Issue is being updated.
    Update,
    /// Issue is being closed.
    Close,
    /// Issue is being deleted.
    Delete,
}

/// Status transition details.
#[derive(Debug)]
pub struct StatusTransition {
    /// Status before the transition.
    pub from: String,
    /// Status after the transition.
    pub to: String,
}

/// Context provided to policy evaluation steps.
#[derive(Debug)]
pub struct PolicyContext {
    /// Current issue state on disk.
    pub current_issue: Option<IssueData>,
    /// Proposed issue state after applying updates.
    pub proposed_issue: IssueData,
    /// Status transition details if status is changing.
    pub transition: Option<StatusTransition>,
    /// Type of operation triggering evaluation.
    pub operation: PolicyOperation,
    /// Project configuration.
    pub project_configuration: ProjectConfiguration,
    /// All issues in the project for aggregate checks.
    pub all_issues: Vec<IssueData>,
}

/// Mathematical content of [`StatusTransition`].
pub struct TransitionView {
    pub from: Seq<char>,
    pub to: Seq<char>,
}

/// What a policy sees of a proposed change, as far as the steps read it.
pub struct ContextView {
    pub proposed: IssueView,
    pub transition: Option<TransitionView>,
    pub operation: PolicyOperation,
    pub all_issues: Seq<IssueView>,
}

impl View for PolicyContext {
    type V = ContextView;

    open spec fn view(&self) -> ContextView {
        ContextView {
            proposed: self.proposed_issue@,
            transition: match self.transition {
                Some(t) => Some(TransitionView { from: t.from@, to: t.to@ }),
                None => None,
            },
            operation: self.operation,
            all_issues: self.all_issues.deep_view(),
        }
    }
}

/// The issues of `issues` whose parent is `parent`, in order.
pub open spec fn children_of(issues: Seq<IssueView>, parent: Seq<char>) -> Seq<IssueView>
    decreases issues.len(),
{
    if issues.len() == 0 {
        Seq::empty()
    } else if issues.last().parent == Some(parent) {
        children_of(issues.drop_last(), parent).push(issues.last())
    } else {
        children_of(issues.drop_last(), parent)
    }
}

/// The first issue of `issues` with the identifier `id`, if there is one.
pub open spec fn first_with_identifier(issues: Seq<IssueView>, id: Seq<char>) -> Option<IssueView>
    decreases issues.len(),
{
    if issues.len() == 0 {
        None
    } else if issues[0].identifier == id {
        Some(issues[0])
    } else {
        first_with_identifier(issues.drop_first(), id)
    }
}

/// The issue that `proposed` names as its parent, as far as `issues` holds
/// it.
pub open spec fn parent_of(proposed: IssueView, issues: Seq<IssueView>) -> Option<IssueView> {
    match proposed.parent {
        Some(parent) => first_with_identifier(issues, parent),
        None => None,
    }
}

/// The view of a borrowed issue, if there is one.
pub open spec fn borrowed_view(issue: Option<&IssueData>) -> Option<IssueView> {
    match issue {
        Some(found) => Some(found@),
        None => None,
    }
}

/// The views of borrowed issues.
pub open spec fn views_of(issues: Seq<&IssueData>) -> Seq<IssueView> {
    Seq::new(issues.len(), |i: int| issues[i]@)
}

impl PolicyContext {
    /// Get the issue being evaluated (proposed state).
    pub fn issue(&self) -> (out: &IssueData)
        ensures
            *out == self.proposed_issue,
    {
        &self.proposed_issue
    }

    /// Check if this is a status transition.
    pub fn is_transition(&self) -> (out: bool)
        ensures
            out == self.transition is Some,
    {
        self.transition.is_some()
    }

    /// Check if transitioning to a specific status.
    pub fn is_transitioning_to(&self, status: &str) -> (out: bool)
        ensures
            out == (self.transition matches Some(t) && t.to@ == status@),
    {
        match &self.transition {
            Some(t) => same_text(t.to.as_str(), status),
            None => false,
        }
    }

    /// Check if transitioning from a specific status.
    pub fn is_transitioning_from(&self, status: &str) -> (out: bool)
        ensures
            out == (self.transition matches Some(t) && t.from@ == status@),
    {
        match &self.transition {
            Some(t) => same_text(t.from.as_str(), status),
            None => false,
        }
    }

    /// Get child issues of the proposed issue.
    pub fn child_issues(&self) -> (out: Vec<&IssueData>)
        ensures
            views_of(out@) == children_of(
                self.all_issues.deep_view(),
                self.proposed_issue@.identifier,
            ),
    {
        let mut out: Vec<&IssueData> = Vec::new();
        let mut i: usize = 0;
        proof {
            assert(self.all_issues.deep_view().take(0) == Seq::<IssueView>::empty());
            assert(views_of(out@) =~= Seq::<IssueView>::empty());
        }
        while i < self.all_issues.len()
            invariant
                i <= self.all_issues.len(),
                views_of(out@) == children_of(
                    self.all_issues.deep_view().take(i as int),
                    self.proposed_issue@.identifier,
                ),
            decreases self.all_issues.len() - i,
        {
            proof {
                let next = self.all_issues.deep_view().take(i + 1);
                assert(next.drop_last() == self.all_issues.deep_view().take(i as int));
                assert(next.last() == self.all_issues@[i as int]@);
            }
            let candidate = &self.all_issues[i];
            let is_child = match &candidate.parent {
                Some(parent) => same_text(parent.as_str(), self.proposed_issue.identifier.as_str()),
                None => false,
            };
            if is_child {
                let ghost before = views_of(out@);
                out.push(candidate);
                proof {
                    assert(views_of(out@) =~= before.push(candidate@));
                }
            }
            i += 1;
        }
        proof {
            assert(self.all_issues.deep_view().take(self.all_issues.len() as int)
                == self.all_issues.deep_view());
        }
        out
    }

    /// Get parent issue of the proposed issue.
    pub fn parent_issue(&self) -> (out: Option<&IssueData>)
        ensures
            borrowed_view(out) == parent_of(self.proposed_issue@, self.all_issues.deep_view()),
    {
        let parent = match &self.proposed_issue.parent {
            Some(parent) => parent,
            None => {
                return None;
            },
        };
        let mut i: usize = 0;
        proof {
            assert(self.all_issues.deep_view().skip(0) == self.all_issues.deep_view());
        }
        while i < self.all_issues.len()
            invariant
                i <= self.all_issues.len(),
                self.proposed_issue@.parent == Some(parent@),
                first_with_identifier(self.all_issues.deep_view(), parent@)
                    == first_with_identifier(self.all_issues.deep_view().skip(i as int), parent@),
            decreases self.all_issues.len() - i,
        {
            let ghost rest = self.all_issues.deep_view().skip(i as int);
            proof {
                assert(rest[0] == self.all_issues@[i as int]@);
                assert(rest.drop_first() =~= self.all_issues.deep_view().skip(i + 1));
            }
            if same_text(self.all_issues[i].identifier.as_str(), parent.as_str()) {
                return Some(&self.all_issues[i]);
            }
            i += 1;
        }
        proof {
            assert(self.all_issues.deep_view().skip(self.all_issues.len() as int)
                =~= Seq::<IssueView>::empty());
        }
        None
    }
}

} // verus!
