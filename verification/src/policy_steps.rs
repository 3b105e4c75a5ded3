//! The steps that policies are written in: how a step is read, and what it
//! comes to for an issue.

use crate::decimal::{is_digit, is_digit_char, is_numeral};
use crate::lines::{first_index_of, lemma_first_index_of};
use crate::text::{
    chars_of, same_chars, same_text, slice_of, starts_with, starts_with_chars, string_of,
};
use vstd::prelude::*;

verus! {

/// Outcome of evaluating a step.
#[derive(Debug)]
pub enum StepOutcome {
    /// Step passed.
    Pass,
    /// Step should be skipped (Given/When didn't match).
    Skip,
    /// Step passed and leaves a warning.
    Warn(String),
    /// Step passed and leaves a suggestion.
    Suggest(String),
    /// Step explains what the step before it left.
    Explain(String),
}

/// Mathematical content of [`StepOutcome`].
pub enum StepOutcomeView {
    Pass,
    Skip,
    Warn(Seq<char>),
    Suggest(Seq<char>),
    Explain(Seq<char>),
}

impl View for StepOutcome {
    type V = StepOutcomeView;

    open spec fn view(&self) -> StepOutcomeView {
        match self {
            StepOutcome::Pass => StepOutcomeView::Pass,
            StepOutcome::Skip => StepOutcomeView::Skip,
            StepOutcome::Warn(m) => StepOutcomeView::Warn(m@),
            StepOutcome::Suggest(m) => StepOutcomeView::Suggest(m@),
            StepOutcome::Explain(m) => StepOutcomeView::Explain(m@),
        }
    }
}

/// Category of a step.
#[derive(Debug, Clone, Copy, PartialEq, Eq, Structural)]
pub enum StepCategory {
    Given,
    When,
    Then,
}

/// What a step asks, with the texts it names.
#[derive(Debug)]
pub enum PolicyCheck {
    IssueTypeIs(String),
    IssueHasLabel(String),
    IssueHasParent,
    IssuePriorityIs(String),
    CustomFieldIsSet(String),
    TransitioningTo(String),
    TransitioningFrom(String),
    TransitioningFromTo(String, String),
    CreatingIssue,
    ClosingIssue,
    MustHaveField(String),
    MustNotHaveField(String),
    FieldMustBe(String, String),
    AllChildrenMustHaveStatus(String),
    NoChildrenMayHaveStatus(String),
    ParentMustHaveStatus(String),
    AtLeastLabels(String),
    MustHaveLabel(String),
    DescriptionNotEmpty,
    TitleMustMatch(String),
    CustomFieldMustBeSet(String),
    CustomFieldMustBe(String, String),
}

/// Mathematical content of [`PolicyCheck`].
pub enum PolicyCheckView {
    IssueTypeIs(Seq<char>),
    IssueHasLabel(Seq<char>),
    IssueHasParent,
    IssuePriorityIs(Seq<char>),
    CustomFieldIsSet(Seq<char>),
    TransitioningTo(Seq<char>),
    TransitioningFrom(Seq<char>),
    TransitioningFromTo(Seq<char>, Seq<char>),
    CreatingIssue,
    ClosingIssue,
    MustHaveField(Seq<char>),
    MustNotHaveField(Seq<char>),
    FieldMustBe(Seq<char>, Seq<char>),
    AllChildrenMustHaveStatus(Seq<char>),
    NoChildrenMayHaveStatus(Seq<char>),
    ParentMustHaveStatus(Seq<char>),
    AtLeastLabels(Seq<char>),
    MustHaveLabel(Seq<char>),
    DescriptionNotEmpty,
    TitleMustMatch(Seq<char>),
    CustomFieldMustBeSet(Seq<char>),
    CustomFieldMustBe(Seq<char>, Seq<char>),
}

impl View for PolicyCheck {
    type V = PolicyCheckView;

    open spec fn view(&self) -> PolicyCheckView {
        match self {
            PolicyCheck::IssueTypeIs(a) => PolicyCheckView::IssueTypeIs(a@),
            PolicyCheck::IssueHasLabel(a) => PolicyCheckView::IssueHasLabel(a@),
            PolicyCheck::IssueHasParent => PolicyCheckView::IssueHasParent,
            PolicyCheck::IssuePriorityIs(a) => PolicyCheckView::IssuePriorityIs(a@),
            PolicyCheck::CustomFieldIsSet(a) => PolicyCheckView::CustomFieldIsSet(a@),
            PolicyCheck::TransitioningTo(a) => PolicyCheckView::TransitioningTo(a@),
            PolicyCheck::TransitioningFrom(a) => PolicyCheckView::TransitioningFrom(a@),
            PolicyCheck::TransitioningFromTo(a, b) => PolicyCheckView::TransitioningFromTo(a@, b@),
            PolicyCheck::CreatingIssue => PolicyCheckView::CreatingIssue,
            PolicyCheck::ClosingIssue => PolicyCheckView::ClosingIssue,
            PolicyCheck::MustHaveField(a) => PolicyCheckView::MustHaveField(a@),
            PolicyCheck::MustNotHaveField(a) => PolicyCheckView::MustNotHaveField(a@),
            PolicyCheck::FieldMustBe(a, b) => PolicyCheckView::FieldMustBe(a@, b@),
            PolicyCheck::AllChildrenMustHaveStatus(a) => PolicyCheckView::AllChildrenMustHaveStatus(
                a@,
            ),
            PolicyCheck::NoChildrenMayHaveStatus(a) => PolicyCheckView::NoChildrenMayHaveStatus(a@),
            PolicyCheck::ParentMustHaveStatus(a) => PolicyCheckView::ParentMustHaveStatus(a@),
            PolicyCheck::AtLeastLabels(a) => PolicyCheckView::AtLeastLabels(a@),
            PolicyCheck::MustHaveLabel(a) => PolicyCheckView::MustHaveLabel(a@),
            PolicyCheck::DescriptionNotEmpty => PolicyCheckView::DescriptionNotEmpty,
            PolicyCheck::TitleMustMatch(a) => PolicyCheckView::TitleMustMatch(a@),
            PolicyCheck::CustomFieldMustBeSet(a) => PolicyCheckView::CustomFieldMustBeSet(a@),
            PolicyCheck::CustomFieldMustBe(a, b) => PolicyCheckView::CustomFieldMustBe(a@, b@),
        }
    }
}

/// The category of the step that asks `check`.
pub open spec fn category_of(check: PolicyCheckView) -> StepCategory {
    match check {
        PolicyCheckView::IssueTypeIs(_) => StepCategory::Given,
        PolicyCheckView::IssueHasLabel(_) => StepCategory::Given,
        PolicyCheckView::IssueHasParent => StepCategory::Given,
        PolicyCheckView::IssuePriorityIs(_) => StepCategory::Given,
        PolicyCheckView::CustomFieldIsSet(_) => StepCategory::Given,
        PolicyCheckView::TransitioningTo(_) => StepCategory::When,
        PolicyCheckView::TransitioningFrom(_) => StepCategory::When,
        PolicyCheckView::TransitioningFromTo(_, _) => StepCategory::When,
        PolicyCheckView::CreatingIssue => StepCategory::When,
        PolicyCheckView::ClosingIssue => StepCategory::When,
        _ => StepCategory::Then,
    }
}

impl PolicyCheck {
    /// The category of the step that asks this.
    pub fn category(&self) -> (out: StepCategory)
        ensures
            out == category_of(self@),
    {
        match self {
            PolicyCheck::IssueTypeIs(_)
            | PolicyCheck::IssueHasLabel(_)
            | PolicyCheck::IssueHasParent
            | PolicyCheck::IssuePriorityIs(_)
            | PolicyCheck::CustomFieldIsSet(_) => StepCategory::Given,
            PolicyCheck::TransitioningTo(_)
            | PolicyCheck::TransitioningFrom(_)
            | PolicyCheck::TransitioningFromTo(_, _)
            | PolicyCheck::CreatingIssue
            | PolicyCheck::ClosingIssue => StepCategory::When,
            _ => StepCategory::Then,
        }
    }
}

/// What follows `lead` in `text`, where `text` starts with it.
pub open spec fn after(text: Seq<char>, lead: Seq<char>) -> Option<Seq<char>> {
    if starts_with(text, lead) {
        Some(text.skip(lead.len() as int))
    } else {
        None
    }
}

/// A quoted text at the head of `s` and what follows it: a quotation mark,
/// one or more characters that are no quotation marks, and a quotation mark.
pub open spec fn quoted(s: Seq<char>) -> Option<(Seq<char>, Seq<char>)> {
    if s.len() > 0 && s[0] == '"' {
        let rest = s.skip(1);
        let close = first_index_of(rest, '"');
        if 0 < close < rest.len() {
            Some((rest.take(close), rest.skip(close + 1)))
        } else {
            None
        }
    } else {
        None
    }
}

/// The quoted text of a step of the form `lead "…" tail`.
pub open spec fn one_quoted(text: Seq<char>, lead: Seq<char>, tail: Seq<char>) -> Option<Seq<char>> {
    match after(text, lead) {
        Some(s) => match quoted(s) {
            Some((inner, rest)) => if rest == tail {
                Some(inner)
            } else {
                None
            },
            None => None,
        },
        None => None,
    }
}

/// The quoted texts of a step of the form `lead "…" middle "…"`.
pub open spec fn two_quoted(text: Seq<char>, lead: Seq<char>, middle: Seq<char>) -> Option<
    (Seq<char>, Seq<char>),
> {
    match after(text, lead) {
        Some(s) => match quoted(s) {
            Some((first, rest)) => match one_quoted(rest, middle, Seq::empty()) {
                Some(second) => Some((first, second)),
                None => None,
            },
            None => None,
        },
        None => None,
    }
}

/// The numeral of a step of the form `lead 123`.
pub open spec fn numeral_after(text: Seq<char>, lead: Seq<char>) -> Option<Seq<char>> {
    match after(text, lead) {
        Some(s) => if is_numeral(s) {
            Some(s)
        } else {
            None
        },
        None => None,
    }
}

/// The length of the run of digits at the head of `s`.
pub open spec fn digit_run(s: Seq<char>) -> int
    decreases s.len(),
{
    if s.len() > 0 && is_digit(s[0]) {
        1 + digit_run(s.drop_first())
    } else {
        0
    }
}

/// The numeral of a step of the form `lead 123 label` or `lead 123 labels`.
pub open spec fn label_count(text: Seq<char>, lead: Seq<char>) -> Option<Seq<char>> {
    match after(text, lead) {
        Some(s) => {
            let n = digit_run(s);
            if n > 0 && (s.skip(n) == " label"@ || s.skip(n) == " labels"@) {
                Some(s.take(n))
            } else {
                None
            }
        },
        None => None,
    }
}

/// The step that `text` writes, if it writes one. The forms are tried in a
/// fixed order and the first that fits is taken.
pub open spec fn step_named(text: Seq<char>) -> Option<PolicyCheckView> {
    if let Some(a) = one_quoted(text, "the issue type is "@, Seq::empty()) {
        Some(PolicyCheckView::IssueTypeIs(a))
    } else if let Some(a) = one_quoted(text, "the issue has label "@, Seq::empty()) {
        Some(PolicyCheckView::IssueHasLabel(a))
    } else if text == "the issue has a parent"@ {
        Some(PolicyCheckView::IssueHasParent)
    } else if let Some(a) = numeral_after(text, "the issue priority is "@) {
        Some(PolicyCheckView::IssuePriorityIs(a))
    } else if let Some(a) = one_quoted(text, "the custom field "@, " is set"@) {
        Some(PolicyCheckView::CustomFieldIsSet(a))
    } else if let Some(a) = one_quoted(text, "transitioning to "@, Seq::empty()) {
        Some(PolicyCheckView::TransitioningTo(a))
    } else if let Some(a) = one_quoted(text, "transitioning from "@, Seq::empty()) {
        Some(PolicyCheckView::TransitioningFrom(a))
    } else if let Some(pair) = two_quoted(text, "transitioning from "@, " to "@) {
        Some(PolicyCheckView::TransitioningFromTo(pair.0, pair.1))
    } else if text == "creating an issue"@ {
        Some(PolicyCheckView::CreatingIssue)
    } else if text == "closing an issue"@ {
        Some(PolicyCheckView::ClosingIssue)
    } else if let Some(a) = one_quoted(text, "the issue must have field "@, Seq::empty()) {
        Some(PolicyCheckView::MustHaveField(a))
    } else if let Some(a) = one_quoted(text, "the issue must not have field "@, Seq::empty()) {
        Some(PolicyCheckView::MustNotHaveField(a))
    } else if let Some(pair) = two_quoted(text, "the field "@, " must be "@) {
        Some(PolicyCheckView::FieldMustBe(pair.0, pair.1))
    } else if let Some(a) = one_quoted(text, "all child issues must have status "@, Seq::empty()) {
        Some(PolicyCheckView::AllChildrenMustHaveStatus(a))
    } else if let Some(a) = one_quoted(text, "no child issues may have status "@, Seq::empty()) {
        Some(PolicyCheckView::NoChildrenMayHaveStatus(a))
    } else if let Some(a) = one_quoted(text, "the parent issue must have status "@, Seq::empty()) {
        Some(PolicyCheckView::ParentMustHaveStatus(a))
    } else if let Some(a) = label_count(text, "the issue must have at least "@) {
        Some(PolicyCheckView::AtLeastLabels(a))
    } else if let Some(a) = one_quoted(text, "the issue must have label "@, Seq::empty()) {
        Some(PolicyCheckView::MustHaveLabel(a))
    } else if text == "the description must not be empty"@ {
        Some(PolicyCheckView::DescriptionNotEmpty)
    } else if let Some(a) = one_quoted(text, "the title must match pattern "@, Seq::empty()) {
        Some(PolicyCheckView::TitleMustMatch(a))
    } else if let Some(a) = one_quoted(text, "the custom field "@, " must be set"@) {
        Some(PolicyCheckView::CustomFieldMustBeSet(a))
    } else if let Some(pair) = two_quoted(text, "the custom field "@, " must be "@) {
        Some(PolicyCheckView::CustomFieldMustBe(pair.0, pair.1))
    } else {
        None
    }
}

/// Executable form of [`after`].
fn strip_lead(text: &Vec<char>, lead: &str) -> (out: Option<Vec<char>>)
    ensures
        (match out {
            Some(rest) => Some(rest@),
            None => None,
        }) == after(text@, lead@),
{
    let wanted = chars_of(lead);
    if starts_with_chars(text, &wanted) {
        let rest = slice_of(text, wanted.len(), text.len());
        proof {
            assert(text@.subrange(wanted.len() as int, text.len() as int) == text@.skip(
                wanted.len() as int,
            ));
        }
        Some(rest)
    } else {
        None
    }
}

/// Executable form of [`quoted`].
fn take_quoted(s: &Vec<char>) -> (out: Option<(Vec<char>, Vec<char>)>)
    ensures
        (match out {
            Some(pair) => Some((pair.0@, pair.1@)),
            None => None,
        }) == quoted(s@),
{
    if s.len() == 0 || s[0] != '"' {
        return None;
    }
    let mut close: usize = 1;
    while close < s.len() && s[close] != '"'
        invariant
            1 <= close <= s.len(),
            forall|j: int| 1 <= j < close ==> #[trigger] s@[j] != '"',
        decreases s.len() - close,
    {
        close += 1;
    }
    proof {
        let rest = s@.skip(1);
        assert forall|j: int| 0 <= j < close - 1 implies #[trigger] rest[j] != '"' by {
            assert(rest[j] == s@[j + 1]);
        }
        if close < s.len() {
            assert(rest[close - 1] == s@[close as int]);
        }
        lemma_first_index_of(rest, '"', close - 1);
    }
    if close == s.len() || close == 1 {
        return None;
    }
    let inner = slice_of(s, 1, close);
    let rest = slice_of(s, close + 1, s.len());
    proof {
        let tail = s@.skip(1);
        assert(s@.subrange(1, close as int) == tail.take(close - 1));
        assert(s@.subrange(close + 1, s.len() as int) == tail.skip(close as int));
    }
    Some((inner, rest))
}

/// Executable form of [`one_quoted`].
fn read_one_quoted(text: &Vec<char>, lead: &str, tail: &str) -> (out: Option<String>)
    ensures
        crate::models::option_text(out) == one_quoted(text@, lead@, tail@),
{
    match strip_lead(text, lead) {
        Some(s) => match take_quoted(&s) {
            Some((inner, rest)) => {
                if same_chars(&rest, &chars_of(tail)) {
                    Some(string_of(&inner))
                } else {
                    None
                }
            },
            None => None,
        },
        None => None,
    }
}

/// Executable form of [`one_quoted`] with nothing behind the quoted text.
fn read_quoted(text: &Vec<char>, lead: &str) -> (out: Option<String>)
    ensures
        crate::models::option_text(out) == one_quoted(text@, lead@, Seq::empty()),
{
    match strip_lead(text, lead) {
        Some(s) => match take_quoted(&s) {
            Some((inner, rest)) => {
                if rest.len() == 0 {
                    proof {
                        assert(rest@ =~= Seq::<char>::empty());
                    }
                    Some(string_of(&inner))
                } else {
                    None
                }
            },
            None => None,
        },
        None => None,
    }
}

/// Executable form of [`two_quoted`].
fn read_two_quoted(text: &Vec<char>, lead: &str, middle: &str) -> (out: Option<(String, String)>)
    ensures
        (match out {
            Some(pair) => Some((pair.0@, pair.1@)),
            None => None,
        }) == two_quoted(text@, lead@, middle@),
{
    match strip_lead(text, lead) {
        Some(s) => match take_quoted(&s) {
            Some((first, rest)) => match read_quoted(&rest, middle) {
                Some(second) => Some((string_of(&first), second)),
                None => None,
            },
            None => None,
        },
        None => None,
    }
}

/// Executable form of [`numeral_after`].
fn read_numeral(text: &Vec<char>, lead: &str) -> (out: Option<String>)
    ensures
        crate::models::option_text(out) == numeral_after(text@, lead@),
{
    match strip_lead(text, lead) {
        Some(s) => {
            if s.len() == 0 {
                return None;
            }
            let mut i: usize = 0;
            while i < s.len()
                invariant
                    i <= s.len(),
                    after(text@, lead@) == Some(s@),
                    forall|j: int| 0 <= j < i ==> is_digit(#[trigger] s@[j]),
                decreases s.len() - i,
            {
                if !is_digit_char(s[i]) {
                    return None;
                }
                i += 1;
            }
            Some(string_of(&s))
        },
        None => None,
    }
}

/// The run of digits at the head of `s` has length `n` when the first `n`
/// characters are digits and the next one, if any, is none.
proof fn lemma_digit_run(s: Seq<char>, n: int)
    requires
        0 <= n <= s.len(),
        forall|j: int| 0 <= j < n ==> is_digit(#[trigger] s[j]),
        n == s.len() || !is_digit(s[n]),
    ensures
        digit_run(s) == n,
    decreases n,
{
    if n > 0 {
        let t = s.drop_first();
        assert forall|j: int| 0 <= j < n - 1 implies is_digit(#[trigger] t[j]) by {
            assert(t[j] == s[j + 1]);
        }
        if n < s.len() {
            assert(t[n - 1] == s[n]);
        }
        lemma_digit_run(t, n - 1);
    }
}

/// Executable form of [`label_count`].
fn read_label_count(text: &Vec<char>, lead: &str) -> (out: Option<String>)
    ensures
        crate::models::option_text(out) == label_count(text@, lead@),
{
    match strip_lead(text, lead) {
        Some(s) => {
            let mut n: usize = 0;
            while n < s.len() && is_digit_char(s[n])
                invariant
                    n <= s.len(),
                    forall|j: int| 0 <= j < n ==> is_digit(#[trigger] s@[j]),
                decreases s.len() - n,
            {
                n += 1;
            }
            proof {
                lemma_digit_run(s@, n as int);
            }
            if n == 0 {
                return None;
            }
            let rest = slice_of(&s, n, s.len());
            proof {
                assert(s@.subrange(n as int, s.len() as int) == s@.skip(n as int));
            }
            if same_chars(&rest, &chars_of(" label")) || same_chars(&rest, &chars_of(" labels")) {
                let digits = slice_of(&s, 0, n);
                proof {
                    assert(s@.subrange(0, n as int) == s@.take(n as int));
                }
                Some(string_of(&digits))
            } else {
                None
            }
        },
        None => None,
    }
}

/// Mathematical content of an optional step.
pub open spec fn check_view(check: Option<PolicyCheck>) -> Option<PolicyCheckView> {
    match check {
        Some(c) => Some(c@),
        None => None,
    }
}

/// Reads a step.
pub fn find_step(step_text: &str) -> (out: Option<PolicyCheck>)
    ensures
        check_view(out) == step_named(step_text@),
{
    let text = chars_of(step_text);
    if let Some(a) = read_quoted(&text, "the issue type is ") {
        return Some(PolicyCheck::IssueTypeIs(a));
    }
    if let Some(a) = read_quoted(&text, "the issue has label ") {
        return Some(PolicyCheck::IssueHasLabel(a));
    }
    if same_text(step_text, "the issue has a parent") {
        return Some(PolicyCheck::IssueHasParent);
    }
    if let Some(a) = read_numeral(&text, "the issue priority is ") {
        return Some(PolicyCheck::IssuePriorityIs(a));
    }
    if let Some(a) = read_one_quoted(&text, "the custom field ", " is set") {
        return Some(PolicyCheck::CustomFieldIsSet(a));
    }
    if let Some(a) = read_quoted(&text, "transitioning to ") {
        return Some(PolicyCheck::TransitioningTo(a));
    }
    if let Some(a) = read_quoted(&text, "transitioning from ") {
        return Some(PolicyCheck::TransitioningFrom(a));
    }
    if let Some(pair) = read_two_quoted(&text, "transitioning from ", " to ") {
        return Some(PolicyCheck::TransitioningFromTo(pair.0, pair.1));
    }
    if same_text(step_text, "creating an issue") {
        return Some(PolicyCheck::CreatingIssue);
    }
    if same_text(step_text, "closing an issue") {
        return Some(PolicyCheck::ClosingIssue);
    }
    if let Some(a) = read_quoted(&text, "the issue must have field ") {
        return Some(PolicyCheck::MustHaveField(a));
    }
    if let Some(a) = read_quoted(&text, "the issue must not have field ") {
        return Some(PolicyCheck::MustNotHaveField(a));
    }
    if let Some(pair) = read_two_quoted(&text, "the field ", " must be ") {
        return Some(PolicyCheck::FieldMustBe(pair.0, pair.1));
    }
    if let Some(a) = read_quoted(&text, "all child issues must have status ") {
        return Some(PolicyCheck::AllChildrenMustHaveStatus(a));
    }
    if let Some(a) = read_quoted(&text, "no child issues may have status ") {
        return Some(PolicyCheck::NoChildrenMayHaveStatus(a));
    }
    if let Some(a) = read_quoted(&text, "the parent issue must have status ") {
        return Some(PolicyCheck::ParentMustHaveStatus(a));
    }
    if let Some(a) = read_label_count(&text, "the issue must have at least ") {
        return Some(PolicyCheck::AtLeastLabels(a));
    }
    if let Some(a) = read_quoted(&text, "the issue must have label ") {
        return Some(PolicyCheck::MustHaveLabel(a));
    }
    if same_text(step_text, "the description must not be empty") {
        return Some(PolicyCheck::DescriptionNotEmpty);
    }
    if let Some(a) = read_quoted(&text, "the title must match pattern ") {
        return Some(PolicyCheck::TitleMustMatch(a));
    }
    if let Some(a) = read_one_quoted(&text, "the custom field ", " must be set") {
        return Some(PolicyCheck::CustomFieldMustBeSet(a));
    }
    if let Some(pair) = read_two_quoted(&text, "the custom field ", " must be ") {
        return Some(PolicyCheck::CustomFieldMustBe(pair.0, pair.1));
    }
    None
}

/// The forms of step that are built in, in the order in which a step text
/// is held against them.
#[derive(Debug, Clone, Copy, PartialEq, Eq, Structural)]
pub enum StepRule {
    IssueTypeIs,
    IssueHasLabel,
    IssueHasParent,
    IssuePriorityIs,
    CustomFieldIsSet,
    TransitioningTo,
    TransitioningFrom,
    TransitioningFromTo,
    CreatingIssue,
    ClosingIssue,
    MustHaveField,
    MustNotHaveField,
    FieldMustBe,
    AllChildrenMustHaveStatus,
    NoChildrenMayHaveStatus,
    ParentMustHaveStatus,
    AtLeastLabels,
    MustHaveLabel,
    DescriptionNotEmpty,
    TitleMustMatch,
    CustomFieldMustBeSet,
    CustomFieldMustBe,
}

/// The step that `text` writes in the form `rule`, if it writes one in
/// that form.
pub open spec fn rule_match(rule: StepRule, text: Seq<char>) -> Option<PolicyCheckView> {
    match rule {
        StepRule::IssueTypeIs => match one_quoted(text, "the issue type is "@, Seq::empty()) {
            Some(a) => Some(PolicyCheckView::IssueTypeIs(a)),
            None => None,
        },
        StepRule::IssueHasLabel => match one_quoted(text, "the issue has label "@, Seq::empty()) {
            Some(a) => Some(PolicyCheckView::IssueHasLabel(a)),
            None => None,
        },
        StepRule::IssueHasParent => if text == "the issue has a parent"@ {
            Some(PolicyCheckView::IssueHasParent)
        } else {
            None
        },
        StepRule::IssuePriorityIs => match numeral_after(text, "the issue priority is "@) {
            Some(a) => Some(PolicyCheckView::IssuePriorityIs(a)),
            None => None,
        },
        StepRule::CustomFieldIsSet => match one_quoted(text, "the custom field "@, " is set"@) {
            Some(a) => Some(PolicyCheckView::CustomFieldIsSet(a)),
            None => None,
        },
        StepRule::TransitioningTo => match one_quoted(text, "transitioning to "@, Seq::empty()) {
            Some(a) => Some(PolicyCheckView::TransitioningTo(a)),
            None => None,
        },
        StepRule::TransitioningFrom => match one_quoted(
            text,
            "transitioning from "@,
            Seq::empty(),
        ) {
            Some(a) => Some(PolicyCheckView::TransitioningFrom(a)),
            None => None,
        },
        StepRule::TransitioningFromTo => match two_quoted(text, "transitioning from "@, " to "@) {
            Some(pair) => Some(PolicyCheckView::TransitioningFromTo(pair.0, pair.1)),
            None => None,
        },
        StepRule::CreatingIssue => if text == "creating an issue"@ {
            Some(PolicyCheckView::CreatingIssue)
        } else {
            None
        },
        StepRule::ClosingIssue => if text == "closing an issue"@ {
            Some(PolicyCheckView::ClosingIssue)
        } else {
            None
        },
        StepRule::MustHaveField => match one_quoted(
            text,
            "the issue must have field "@,
            Seq::empty(),
        ) {
            Some(a) => Some(PolicyCheckView::MustHaveField(a)),
            None => None,
        },
        StepRule::MustNotHaveField => match one_quoted(
            text,
            "the issue must not have field "@,
            Seq::empty(),
        ) {
            Some(a) => Some(PolicyCheckView::MustNotHaveField(a)),
            None => None,
        },
        StepRule::FieldMustBe => match two_quoted(text, "the field "@, " must be "@) {
            Some(pair) => Some(PolicyCheckView::FieldMustBe(pair.0, pair.1)),
            None => None,
        },
        StepRule::AllChildrenMustHaveStatus => match one_quoted(
            text,
            "all child issues must have status "@,
            Seq::empty(),
        ) {
            Some(a) => Some(PolicyCheckView::AllChildrenMustHaveStatus(a)),
            None => None,
        },
        StepRule::NoChildrenMayHaveStatus => match one_quoted(
            text,
            "no child issues may have status "@,
            Seq::empty(),
        ) {
            Some(a) => Some(PolicyCheckView::NoChildrenMayHaveStatus(a)),
            None => None,
        },
        StepRule::ParentMustHaveStatus => match one_quoted(
            text,
            "the parent issue must have status "@,
            Seq::empty(),
        ) {
            Some(a) => Some(PolicyCheckView::ParentMustHaveStatus(a)),
            None => None,
        },
        StepRule::AtLeastLabels => match label_count(text, "the issue must have at least "@) {
            Some(a) => Some(PolicyCheckView::AtLeastLabels(a)),
            None => None,
        },
        StepRule::MustHaveLabel => match one_quoted(
            text,
            "the issue must have label "@,
            Seq::empty(),
        ) {
            Some(a) => Some(PolicyCheckView::MustHaveLabel(a)),
            None => None,
        },
        StepRule::DescriptionNotEmpty => if text == "the description must not be empty"@ {
            Some(PolicyCheckView::DescriptionNotEmpty)
        } else {
            None
        },
        StepRule::TitleMustMatch => match one_quoted(
            text,
            "the title must match pattern "@,
            Seq::empty(),
        ) {
            Some(a) => Some(PolicyCheckView::TitleMustMatch(a)),
            None => None,
        },
        StepRule::CustomFieldMustBeSet => match one_quoted(
            text,
            "the custom field "@,
            " must be set"@,
        ) {
            Some(a) => Some(PolicyCheckView::CustomFieldMustBeSet(a)),
            None => None,
        },
        StepRule::CustomFieldMustBe => match two_quoted(text, "the custom field "@, " must be "@) {
            Some(pair) => Some(PolicyCheckView::CustomFieldMustBe(pair.0, pair.1)),
            None => None,
        },
    }
}

/// Holds a step text against one form.
fn match_rule(rule: StepRule, step_text: &str) -> (out: Option<PolicyCheck>)
    ensures
        check_view(out) == rule_match(rule, step_text@),
{
    let text = chars_of(step_text);
    match rule {
        StepRule::IssueTypeIs => match read_quoted(&text, "the issue type is ") {
            Some(a) => Some(PolicyCheck::IssueTypeIs(a)),
            None => None,
        },
        StepRule::IssueHasLabel => match read_quoted(&text, "the issue has label ") {
            Some(a) => Some(PolicyCheck::IssueHasLabel(a)),
            None => None,
        },
        StepRule::IssueHasParent => if same_text(step_text, "the issue has a parent") {
            Some(PolicyCheck::IssueHasParent)
        } else {
            None
        },
        StepRule::IssuePriorityIs => match read_numeral(&text, "the issue priority is ") {
            Some(a) => Some(PolicyCheck::IssuePriorityIs(a)),
            None => None,
        },
        StepRule::CustomFieldIsSet => match read_one_quoted(&text, "the custom field ", " is set") {
            Some(a) => Some(PolicyCheck::CustomFieldIsSet(a)),
            None => None,
        },
        StepRule::TransitioningTo => match read_quoted(&text, "transitioning to ") {
            Some(a) => Some(PolicyCheck::TransitioningTo(a)),
            None => None,
        },
        StepRule::TransitioningFrom => match read_quoted(&text, "transitioning from ") {
            Some(a) => Some(PolicyCheck::TransitioningFrom(a)),
            None => None,
        },
        StepRule::TransitioningFromTo => match read_two_quoted(
            &text,
            "transitioning from ",
            " to ",
        ) {
            Some(pair) => Some(PolicyCheck::TransitioningFromTo(pair.0, pair.1)),
            None => None,
        },
        StepRule::CreatingIssue => if same_text(step_text, "creating an issue") {
            Some(PolicyCheck::CreatingIssue)
        } else {
            None
        },
        StepRule::ClosingIssue => if same_text(step_text, "closing an issue") {
            Some(PolicyCheck::ClosingIssue)
        } else {
            None
        },
        StepRule::MustHaveField => match read_quoted(&text, "the issue must have field ") {
            Some(a) => Some(PolicyCheck::MustHaveField(a)),
            None => None,
        },
        StepRule::MustNotHaveField => match read_quoted(&text, "the issue must not have field ") {
            Some(a) => Some(PolicyCheck::MustNotHaveField(a)),
            None => None,
        },
        StepRule::FieldMustBe => match read_two_quoted(&text, "the field ", " must be ") {
            Some(pair) => Some(PolicyCheck::FieldMustBe(pair.0, pair.1)),
            None => None,
        },
        StepRule::AllChildrenMustHaveStatus => match read_quoted(
            &text,
            "all child issues must have status ",
        ) {
            Some(a) => Some(PolicyCheck::AllChildrenMustHaveStatus(a)),
            None => None,
        },
        StepRule::NoChildrenMayHaveStatus => match read_quoted(
            &text,
            "no child issues may have status ",
        ) {
            Some(a) => Some(PolicyCheck::NoChildrenMayHaveStatus(a)),
            None => None,
        },
        StepRule::ParentMustHaveStatus => match read_quoted(
            &text,
            "the parent issue must have status ",
        ) {
            Some(a) => Some(PolicyCheck::ParentMustHaveStatus(a)),
            None => None,
        },
        StepRule::AtLeastLabels => match read_label_count(&text, "the issue must have at least ") {
            Some(a) => Some(PolicyCheck::AtLeastLabels(a)),
            None => None,
        },
        StepRule::MustHaveLabel => match read_quoted(&text, "the issue must have label ") {
            Some(a) => Some(PolicyCheck::MustHaveLabel(a)),
            None => None,
        },
        StepRule::DescriptionNotEmpty => if same_text(step_text, "the description must not be empty") {
            Some(PolicyCheck::DescriptionNotEmpty)
        } else {
            None
        },
        StepRule::TitleMustMatch => match read_quoted(&text, "the title must match pattern ") {
            Some(a) => Some(PolicyCheck::TitleMustMatch(a)),
            None => None,
        },
        StepRule::CustomFieldMustBeSet => match read_one_quoted(
            &text,
            "the custom field ",
            " must be set",
        ) {
            Some(a) => Some(PolicyCheck::CustomFieldMustBeSet(a)),
            None => None,
        },
        StepRule::CustomFieldMustBe => match read_two_quoted(
            &text,
            "the custom field ",
            " must be ",
        ) {
            Some(pair) => Some(PolicyCheck::CustomFieldMustBe(pair.0, pair.1)),
            None => None,
        },
    }
}

/// A single step definition: what it is for, how it is written, and the
/// form against which a step text is held.
#[derive(Debug)]
pub struct StepDefinition {
    /// Human-readable description of what this step does.
    pub description: String,
    /// Category (Given/When/Then).
    pub category: StepCategory,
    /// Human-readable usage pattern.
    pub usage_pattern: String,
    /// The form of the step.
    pub rule: StepRule,
}

/// Mathematical content of [`StepDefinition`].
pub struct DefinitionView {
    pub description: Seq<char>,
    pub category: StepCategory,
    pub usage_pattern: Seq<char>,
    pub rule: StepRule,
}

impl View for StepDefinition {
    type V = DefinitionView;

    open spec fn view(&self) -> DefinitionView {
        DefinitionView {
            description: self.description@,
            category: self.category,
            usage_pattern: self.usage_pattern@,
            rule: self.rule,
        }
    }
}

impl DeepView for StepDefinition {
    type V = DefinitionView;

    open spec fn deep_view(&self) -> DefinitionView {
        self@
    }
}

impl StepDefinition {
    /// Create a new step definition.
    pub fn new(
        description: &str,
        category: StepCategory,
        usage_pattern: &str,
        rule: StepRule,
    ) -> (out: Self)
        ensures
            out@ == (DefinitionView {
                description: description@,
                category,
                usage_pattern: usage_pattern@,
                rule,
            }),
    {
        StepDefinition {
            description: crate::text::owned(description),
            category,
            usage_pattern: crate::text::owned(usage_pattern),
            rule,
        }
    }

    /// Check if this step matches the given text, and read what it names.
    pub fn matches(&self, text: &str) -> (out: Option<PolicyCheck>)
        ensures
            check_view(out) == rule_match(self.rule, text@),
    {
        match_rule(self.rule, text)
    }
}

/// One built-in definition.
pub open spec fn definition(
    description: Seq<char>,
    category: StepCategory,
    usage_pattern: Seq<char>,
    rule: StepRule,
) -> DefinitionView {
    DefinitionView { description, category, usage_pattern, rule }
}

/// The built-in definitions, in the order in which a step text is held
/// against them.
pub open spec fn builtin_definitions() -> Seq<DefinitionView> {
    seq![
        definition(
            "Filter by issue type"@,
            StepCategory::Given,
            "the issue type is \"TYPE\""@,
            StepRule::IssueTypeIs,
        ),
        definition(
            "Filter by label presence"@,
            StepCategory::Given,
            "the issue has label \"LABEL\""@,
            StepRule::IssueHasLabel,
        ),
        definition(
            "Filter by parent presence"@,
            StepCategory::Given,
            "the issue has a parent"@,
            StepRule::IssueHasParent,
        ),
        definition(
            "Filter by priority"@,
            StepCategory::Given,
            "the issue priority is N"@,
            StepRule::IssuePriorityIs,
        ),
        definition(
            "Filter by custom field presence"@,
            StepCategory::Given,
            "the custom field \"FIELD\" is set"@,
            StepRule::CustomFieldIsSet,
        ),
        definition(
            "Filter by transition target"@,
            StepCategory::When,
            "transitioning to \"STATUS\""@,
            StepRule::TransitioningTo,
        ),
        definition(
            "Filter by transition source"@,
            StepCategory::When,
            "transitioning from \"STATUS\""@,
            StepRule::TransitioningFrom,
        ),
        definition(
            "Filter by specific transition"@,
            StepCategory::When,
            "transitioning from \"A\" to \"B\""@,
            StepRule::TransitioningFromTo,
        ),
        definition(
            "Filter by create operation"@,
            StepCategory::When,
            "creating an issue"@,
            StepRule::CreatingIssue,
        ),
        definition(
            "Filter by close operation"@,
            StepCategory::When,
            "closing an issue"@,
            StepRule::ClosingIssue,
        ),
        definition(
            "Assert field is set"@,
            StepCategory::Then,
            "the issue must have field \"FIELD\""@,
            StepRule::MustHaveField,
        ),
        definition(
            "Assert field is not set"@,
            StepCategory::Then,
            "the issue must not have field \"FIELD\""@,
            StepRule::MustNotHaveField,
        ),
        definition(
            "Assert field equals value"@,
            StepCategory::Then,
            "the field \"FIELD\" must be \"VALUE\""@,
            StepRule::FieldMustBe,
        ),
        definition(
            "Assert all children have status"@,
            StepCategory::Then,
            "all child issues must have status \"STATUS\""@,
            StepRule::AllChildrenMustHaveStatus,
        ),
        definition(
            "Assert no children have status"@,
            StepCategory::Then,
            "no child issues may have status \"STATUS\""@,
            StepRule::NoChildrenMayHaveStatus,
        ),
        definition(
            "Assert parent has status"@,
            StepCategory::Then,
            "the parent issue must have status \"STATUS\""@,
            StepRule::ParentMustHaveStatus,
        ),
        definition(
            "Assert minimum label count"@,
            StepCategory::Then,
            "the issue must have at least N labels"@,
            StepRule::AtLeastLabels,
        ),
        definition(
            "Assert has specific label"@,
            StepCategory::Then,
            "the issue must have label \"LABEL\""@,
            StepRule::MustHaveLabel,
        ),
        definition(
            "Assert description not empty"@,
            StepCategory::Then,
            "the description must not be empty"@,
            StepRule::DescriptionNotEmpty,
        ),
        definition(
            "Assert title matches pattern"@,
            StepCategory::Then,
            "the title must match pattern \"REGEX\""@,
            StepRule::TitleMustMatch,
        ),
        definition(
            "Assert custom field is set"@,
            StepCategory::Then,
            "the custom field \"FIELD\" must be set"@,
            StepRule::CustomFieldMustBeSet,
        ),
        definition(
            "Assert custom field equals value"@,
            StepCategory::Then,
            "the custom field \"FIELD\" must be \"VALUE\""@,
            StepRule::CustomFieldMustBe,
        ),
    ]
}

/// Registry of all built-in step definitions.
#[derive(Debug)]
pub struct StepRegistry {
    pub steps: Vec<StepDefinition>,
}

/// Whether the definition at place `at` is the first of `steps` in whose
/// form `text` writes a step.
pub open spec fn is_first_match(steps: Seq<DefinitionView>, text: Seq<char>, at: int) -> bool {
    &&& 0 <= at < steps.len()
    &&& rule_match(steps[at].rule, text) is Some
    &&& forall|j: int| 0 <= j < at ==> rule_match((#[trigger] steps[j]).rule, text) is None
}

impl StepRegistry {
    /// Create a new registry with all built-in steps.
    pub fn new() -> (out: Self)
        ensures
            out.steps.deep_view() == builtin_definitions(),
    {
        let mut steps: Vec<StepDefinition> = Vec::new();
        steps.push(
            StepDefinition::new(
                "Filter by issue type",
                StepCategory::Given,
                "the issue type is \"TYPE\"",
                StepRule::IssueTypeIs,
            ),
        );
        steps.push(
            StepDefinition::new(
                "Filter by label presence",
                StepCategory::Given,
                "the issue has label \"LABEL\"",
                StepRule::IssueHasLabel,
            ),
        );
        steps.push(
            StepDefinition::new(
                "Filter by parent presence",
                StepCategory::Given,
                "the issue has a parent",
                StepRule::IssueHasParent,
            ),
        );
        steps.push(
            StepDefinition::new(
                "Filter by priority",
                StepCategory::Given,
                "the issue priority is N",
                StepRule::IssuePriorityIs,
            ),
        );
        steps.push(
            StepDefinition::new(
                "Filter by custom field presence",
                StepCategory::Given,
                "the custom field \"FIELD\" is set",
                StepRule::CustomFieldIsSet,
            ),
        );
        steps.push(
            StepDefinition::new(
                "Filter by transition target",
                StepCategory::When,
                "transitioning to \"STATUS\"",
                StepRule::TransitioningTo,
            ),
        );
        steps.push(
            StepDefinition::new(
                "Filter by transition source",
                StepCategory::When,
                "transitioning from \"STATUS\"",
                StepRule::TransitioningFrom,
            ),
        );
        steps.push(
            StepDefinition::new(
                "Filter by specific transition",
                StepCategory::When,
                "transitioning from \"A\" to \"B\"",
                StepRule::TransitioningFromTo,
            ),
        );
        steps.push(
            StepDefinition::new(
                "Filter by create operation",
                StepCategory::When,
                "creating an issue",
                StepRule::CreatingIssue,
            ),
        );
        steps.push(
            StepDefinition::new(
                "Filter by close operation",
                StepCategory::When,
                "closing an issue",
                StepRule::ClosingIssue,
            ),
        );
        steps.push(
            StepDefinition::new(
                "Assert field is set",
                StepCategory::Then,
                "the issue must have field \"FIELD\"",
                StepRule::MustHaveField,
            ),
        );
        steps.push(
            StepDefinition::new(
                "Assert field is not set",
                StepCategory::Then,
                "the issue must not have field \"FIELD\"",
                StepRule::MustNotHaveField,
            ),
        );
        steps.push(
            StepDefinition::new(
                "Assert field equals value",
                StepCategory::Then,
                "the field \"FIELD\" must be \"VALUE\"",
                StepRule::FieldMustBe,
            ),
        );
        steps.push(
            StepDefinition::new(
                "Assert all children have status",
                StepCategory::Then,
                "all child issues must have status \"STATUS\"",
                StepRule::AllChildrenMustHaveStatus,
            ),
        );
        steps.push(
            StepDefinition::new(
                "Assert no children have status",
                StepCategory::Then,
                "no child issues may have status \"STATUS\"",
                StepRule::NoChildrenMayHaveStatus,
            ),
        );
        steps.push(
            StepDefinition::new(
                "Assert parent has status",
                StepCategory::Then,
                "the parent issue must have status \"STATUS\"",
                StepRule::ParentMustHaveStatus,
            ),
        );
        steps.push(
            StepDefinition::new(
                "Assert minimum label count",
                StepCategory::Then,
                "the issue must have at least N labels",
                StepRule::AtLeastLabels,
            ),
        );
        steps.push(
            StepDefinition::new(
                "Assert has specific label",
                StepCategory::Then,
                "the issue must have label \"LABEL\"",
                StepRule::MustHaveLabel,
            ),
        );
        steps.push(
            StepDefinition::new(
                "Assert description not empty",
                StepCategory::Then,
                "the description must not be empty",
                StepRule::DescriptionNotEmpty,
            ),
        );
        steps.push(
            StepDefinition::new(
                "Assert title matches pattern",
                StepCategory::Then,
                "the title must match pattern \"REGEX\"",
                StepRule::TitleMustMatch,
            ),
        );
        steps.push(
            StepDefinition::new(
                "Assert custom field is set",
                StepCategory::Then,
                "the custom field \"FIELD\" must be set",
                StepRule::CustomFieldMustBeSet,
            ),
        );
        steps.push(
            StepDefinition::new(
                "Assert custom field equals value",
                StepCategory::Then,
                "the custom field \"FIELD\" must be \"VALUE\"",
                StepRule::CustomFieldMustBe,
            ),
        );
        proof {
            assert(steps.deep_view() =~= builtin_definitions());
        }
        StepRegistry { steps }
    }

    /// Find a step definition matching the given text: the first in whose
    /// form the text writes a step, with what the step names.
    pub fn find_step(&self, text: &str) -> (out: Option<(&StepDefinition, PolicyCheck)>)
        ensures
            match out {
                Some(found) => exists|at: int|
                    is_first_match(self.steps.deep_view(), text@, at) && *found.0
                        == #[trigger] self.steps[at] && Some(found.1@) == rule_match(
                        self.steps[at].rule,
                        text@,
                    ),
                None => forall|j: int|
                    0 <= j < self.steps.len() ==> rule_match(
                        (#[trigger] self.steps.deep_view()[j]).rule,
                        text@,
                    ) is None,
            },
    {
        let mut i: usize = 0;
        while i < self.steps.len()
            invariant
                i <= self.steps.len(),
                forall|j: int|
                    0 <= j < i ==> rule_match((#[trigger] self.steps.deep_view()[j]).rule, text@)
                        is None,
            decreases self.steps.len() - i,
        {
            proof {
                assert(self.steps.deep_view()[i as int] == self.steps[i as int]@);
            }
            match self.steps[i].matches(text) {
                Some(check) => {
                    proof {
                        assert(is_first_match(self.steps.deep_view(), text@, i as int));
                    }
                    return Some((&self.steps[i], check));
                },
                None => {},
            }
            i += 1;
        }
        None
    }
}

impl Default for StepRegistry {
    fn default() -> (out: Self)
        ensures
            out.steps.deep_view() == builtin_definitions(),
    {
        StepRegistry::new()
    }
}

/// The step that `text` writes in the first of `rules` in which it writes
/// one.
pub open spec fn first_rule_match(rules: Seq<StepRule>, text: Seq<char>) -> Option<PolicyCheckView>
    decreases rules.len(),
{
    if rules.len() == 0 {
        None
    } else {
        match rule_match(rules[0], text) {
            Some(check) => Some(check),
            None => first_rule_match(rules.drop_first(), text),
        }
    }
}

/// The forms of the built-in definitions, in their order.
pub open spec fn builtin_rules() -> Seq<StepRule> {
    Seq::new(builtin_definitions().len(), |i: int| builtin_definitions()[i].rule)
}

/// Reading a step is holding its text against the built-in forms in their
/// order and taking the first that fits.
pub proof fn law_steps_are_read_by_the_registry(text: Seq<char>)
    ensures
        first_rule_match(builtin_rules(), text) == step_named(text),
{
    reveal_with_fuel(first_rule_match, 23);
    let rules = builtin_rules();
    assert(rules =~= seq![
        StepRule::IssueTypeIs,
        StepRule::IssueHasLabel,
        StepRule::IssueHasParent,
        StepRule::IssuePriorityIs,
        StepRule::CustomFieldIsSet,
        StepRule::TransitioningTo,
        StepRule::TransitioningFrom,
        StepRule::TransitioningFromTo,
        StepRule::CreatingIssue,
        StepRule::ClosingIssue,
        StepRule::MustHaveField,
        StepRule::MustNotHaveField,
        StepRule::FieldMustBe,
        StepRule::AllChildrenMustHaveStatus,
        StepRule::NoChildrenMayHaveStatus,
        StepRule::ParentMustHaveStatus,
        StepRule::AtLeastLabels,
        StepRule::MustHaveLabel,
        StepRule::DescriptionNotEmpty,
        StepRule::TitleMustMatch,
        StepRule::CustomFieldMustBeSet,
        StepRule::CustomFieldMustBe,
    ]);
}

/// A step read in the form of a built-in definition is of the category
/// that the definition names.
pub proof fn law_categories_agree(at: int, text: Seq<char>)
    requires
        0 <= at < builtin_definitions().len(),
        rule_match(builtin_definitions()[at].rule, text) is Some,
    ensures
        category_of(rule_match(builtin_definitions()[at].rule, text)->0)
            == builtin_definitions()[at].category,
{
}

} // verus!
