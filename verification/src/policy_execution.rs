//! What each policy step comes to for a proposed change.

use crate::cli::custom_value;
use crate::decimal::{decimal_digits, decimal_value, format_decimal, parse_decimal};
use crate::models::{CustomField, CustomFieldView, CustomValue, CustomValueView, IssueData, IssueView};
use crate::policy_context::{
    borrowed_view, children_of, parent_of, views_of, ContextView, PolicyContext, PolicyOperation,
};
use crate::policy_steps::{
    PolicyCheck, PolicyCheckView, StepDefinition, StepOutcome, StepOutcomeView,
};
use crate::text::{
    chars_of, contains_text, is_blank, is_blank_chars, join, join_strings, owned, push_all,
    push_str, same_text, string_of,
};
use vstd::prelude::*;

verus! {

/// What a step comes to: an outcome, or the reason why it failed.
pub type StepResult = Result<StepOutcome, String>;

/// Mathematical content of a step's result.
pub type StepResultView = Result<StepOutcomeView, Seq<char>>;

/// Mathematical content of a step's result.
pub open spec fn result_view(result: StepResult) -> StepResultView {
    match result {
        Ok(outcome) => Ok(outcome@),
        Err(message) => Err(message@),
    }
}

/// A filter: it passes where `holds`, and lets the scenario be skipped where
/// not.
pub open spec fn pass_or_skip(holds: bool) -> StepResultView {
    if holds {
        Ok(StepOutcomeView::Pass)
    } else {
        Ok(StepOutcomeView::Skip)
    }
}

/// A rule: it passes where `holds` and fails with `message` where not.
pub open spec fn pass_or_fail(holds: bool, message: Seq<char>) -> StepResultView {
    if holds {
        Ok(StepOutcomeView::Pass)
    } else {
        Err(message)
    }
}

/// What a regular expression makes of a text: whether it matches somewhere
/// in it, or the error with which the expression is refused.
pub uninterp spec fn regex_verdict(pattern: Seq<char>, text: Seq<char>) -> Result<bool, Seq<char>>;

/// Matches `text` against the regular expression `pattern`.
///
/// Trusted: calls `regex::Regex::new` and `Regex::is_match`, and hands back
/// the error's text where the expression is refused. Both depend on their
/// arguments alone; the outcome is named `regex_verdict`.
#[verifier::external_body]
fn match_pattern(pattern: &str, text: &str) -> (out: Result<bool, String>)
    ensures
        (match out {
            Ok(found) => Ok::<bool, Seq<char>>(found),
            Err(error) => Err(error@),
        }) == regex_verdict(pattern@, text@),
{
    match regex::Regex::new(pattern) {
        Ok(expression) => Ok(expression.is_match(text)),
        Err(error) => Err(error.to_string()),
    }
}

/// Whether the named field of an issue is set, for the fields that a rule
/// can ask to be set.
pub open spec fn field_is_set(issue: IssueView, field: Seq<char>) -> Option<bool> {
    if field == "assignee"@ {
        Some(issue.assignee is Some)
    } else if field == "parent"@ {
        Some(issue.parent is Some)
    } else if field == "description"@ {
        Some(!is_blank(issue.description))
    } else if field == "title"@ {
        Some(!is_blank(issue.title))
    } else if field == "creator"@ {
        Some(issue.creator is Some)
    } else {
        None
    }
}

/// Whether the named field of an issue is set, for the fields that a rule
/// can ask to be unset.
pub open spec fn field_is_present(issue: IssueView, field: Seq<char>) -> Option<bool> {
    if field == "assignee"@ {
        Some(issue.assignee is Some)
    } else if field == "parent"@ {
        Some(issue.parent is Some)
    } else if field == "creator"@ {
        Some(issue.creator is Some)
    } else {
        None
    }
}

/// The value of the named field of an issue, for the fields that a rule can
/// ask to have a value.
pub open spec fn field_value(issue: IssueView, field: Seq<char>) -> Option<Option<Seq<char>>> {
    if field == "status"@ {
        Some(Some(issue.status))
    } else if field == "issue_type"@ || field == "type"@ {
        Some(Some(issue.issue_type))
    } else if field == "assignee"@ {
        Some(issue.assignee)
    } else if field == "parent"@ {
        Some(issue.parent)
    } else if field == "creator"@ {
        Some(issue.creator)
    } else {
        None
    }
}

/// The text of a custom value.
pub open spec fn custom_text(value: CustomValueView) -> Seq<char> {
    match value {
        CustomValueView::Text(text) => text,
        CustomValueView::Json(raw) => raw,
    }
}

/// The identifiers of the issues whose status is `status` (where `wanted`)
/// or is not (where not), in order.
pub open spec fn identifiers_by_status(issues: Seq<IssueView>, status: Seq<char>, wanted: bool) -> Seq<
    Seq<char>,
>
    decreases issues.len(),
{
    if issues.len() == 0 {
        Seq::empty()
    } else if (issues.last().status == status) == wanted {
        identifiers_by_status(issues.drop_last(), status, wanted).push(issues.last().identifier)
    } else {
        identifiers_by_status(issues.drop_last(), status, wanted)
    }
}

/// The message for a field that no rule knows.
pub open spec fn unknown_field(field: Seq<char>) -> Seq<char> {
    "unknown field: "@ + field
}

/// What asking for a field to be set comes to.
pub open spec fn must_have_field(issue: IssueView, field: Seq<char>) -> StepResultView {
    match field_is_set(issue, field) {
        None => Err(unknown_field(field)),
        Some(set) => pass_or_fail(set, "issue does not have field \""@ + field + "\" set"@),
    }
}

/// What asking for a field to be unset comes to.
pub open spec fn must_not_have_field(issue: IssueView, field: Seq<char>) -> StepResultView {
    match field_is_present(issue, field) {
        None => Err(unknown_field(field)),
        Some(set) => pass_or_fail(!set, "issue has field \""@ + field + "\" set but should not"@),
    }
}

/// What asking for a field to have a value comes to.
pub open spec fn field_must_be(issue: IssueView, field: Seq<char>, expected: Seq<char>) -> StepResultView {
    match field_value(issue, field) {
        None => Err(unknown_field(field)),
        Some(None) => Err("field \""@ + field + "\" is not set"@),
        Some(Some(value)) => pass_or_fail(
            value == expected,
            "field \""@ + field + "\" is \""@ + value + "\" but must be \""@ + expected + "\""@,
        ),
    }
}

/// What asking all children to have a status comes to.
pub open spec fn all_children_have(children: Seq<IssueView>, status: Seq<char>) -> StepResultView {
    let others = identifiers_by_status(children, status, false);
    pass_or_fail(
        others.len() == 0,
        "child issues "@ + join(others, ", "@) + " do not have status \""@ + status + "\""@,
    )
}

/// What asking no child to have a status comes to.
pub open spec fn no_children_have(children: Seq<IssueView>, status: Seq<char>) -> StepResultView {
    let same = identifiers_by_status(children, status, true);
    pass_or_fail(
        same.len() == 0,
        "child issues "@ + join(same, ", "@) + " have status \""@ + status + "\" but should not"@,
    )
}

/// What asking the parent to have a status comes to.
pub open spec fn parent_has(parent: Option<IssueView>, status: Seq<char>) -> StepResultView {
    match parent {
        Some(p) => pass_or_fail(
            p.status == status,
            "parent issue "@ + p.identifier + " has status \""@ + p.status
                + "\" but must have status \""@ + status + "\""@,
        ),
        None => Err("issue has no parent"@),
    }
}

/// What asking for a number of labels comes to.
pub open spec fn has_labels(issue: IssueView, digits: Seq<char>) -> StepResultView {
    if !crate::decimal::is_numeral(digits) || decimal_value(digits) > u64::MAX {
        Err("invalid label count"@)
    } else {
        pass_or_fail(
            issue.labels.len() >= decimal_value(digits),
            "issue has "@ + decimal_digits(issue.labels.len()) + " label(s) but must have at least "@
                + decimal_digits(decimal_value(digits)),
        )
    }
}

/// What filtering by priority comes to.
pub open spec fn priority_is(issue: IssueView, digits: Seq<char>) -> StepResultView {
    if !crate::decimal::is_numeral(digits) || decimal_value(digits) > i32::MAX {
        Err("invalid priority"@)
    } else {
        pass_or_skip(issue.priority == decimal_value(digits))
    }
}

/// What a regular expression's verdict on a title comes to: an expression
/// that is refused is an error, one that does not match fails the rule.
pub open spec fn title_verdict(
    title: Seq<char>,
    pattern: Seq<char>,
    verdict: Result<bool, Seq<char>>,
) -> StepResultView {
    match verdict {
        Err(error) => Err("invalid regex pattern: "@ + error),
        Ok(found) => pass_or_fail(
            found,
            "title \""@ + title + "\" does not match pattern \""@ + pattern + "\""@,
        ),
    }
}

/// What asking the title to match an expression comes to.
pub open spec fn title_matches(issue: IssueView, pattern: Seq<char>) -> StepResultView {
    title_verdict(issue.title, pattern, regex_verdict(pattern, issue.title))
}

/// What asking a custom field to have a value comes to.
pub open spec fn custom_must_be(issue: IssueView, field: Seq<char>, expected: Seq<char>) -> StepResultView {
    match custom_value(issue.custom, field) {
        Some(value) => pass_or_fail(
            custom_text(value) == expected,
            "custom field \""@ + field + "\" is \""@ + custom_text(value) + "\" but must be \""@
                + expected + "\""@,
        ),
        None => Err("custom field \""@ + field + "\" is not set"@),
    }
}

/// What the step `check` comes to in `context`.
pub open spec fn step_result(check: PolicyCheckView, context: ContextView) -> StepResultView {
    let issue = context.proposed;
    let children = children_of(context.all_issues, issue.identifier);
    match check {
        PolicyCheckView::IssueTypeIs(wanted) => pass_or_skip(issue.issue_type == wanted),
        PolicyCheckView::IssueHasLabel(label) => pass_or_skip(issue.labels.contains(label)),
        PolicyCheckView::IssueHasParent => pass_or_skip(issue.parent is Some),
        PolicyCheckView::IssuePriorityIs(digits) => priority_is(issue, digits),
        PolicyCheckView::CustomFieldIsSet(field) => pass_or_skip(
            custom_value(issue.custom, field) is Some,
        ),
        PolicyCheckView::TransitioningTo(status) => pass_or_skip(
            context.transition matches Some(t) && t.to == status,
        ),
        PolicyCheckView::TransitioningFrom(status) => pass_or_skip(
            context.transition matches Some(t) && t.from == status,
        ),
        PolicyCheckView::TransitioningFromTo(from, to) => pass_or_skip(
            (context.transition matches Some(t) && t.from == from) && (
            context.transition matches Some(t) && t.to == to),
        ),
        PolicyCheckView::CreatingIssue => pass_or_skip(context.operation == PolicyOperation::Create),
        PolicyCheckView::ClosingIssue => pass_or_skip(context.operation == PolicyOperation::Close),
        PolicyCheckView::MustHaveField(field) => must_have_field(issue, field),
        PolicyCheckView::MustNotHaveField(field) => must_not_have_field(issue, field),
        PolicyCheckView::FieldMustBe(field, expected) => field_must_be(issue, field, expected),
        PolicyCheckView::AllChildrenMustHaveStatus(status) => all_children_have(children, status),
        PolicyCheckView::NoChildrenMayHaveStatus(status) => no_children_have(children, status),
        PolicyCheckView::ParentMustHaveStatus(status) => parent_has(
            parent_of(issue, context.all_issues),
            status,
        ),
        PolicyCheckView::AtLeastLabels(digits) => has_labels(issue, digits),
        PolicyCheckView::MustHaveLabel(label) => pass_or_fail(
            issue.labels.contains(label),
            "issue does not have label \""@ + label + "\""@,
        ),
        PolicyCheckView::DescriptionNotEmpty => pass_or_fail(
            !is_blank(issue.description),
            "issue description is empty"@,
        ),
        PolicyCheckView::TitleMustMatch(pattern) => title_matches(issue, pattern),
        PolicyCheckView::CustomFieldMustBeSet(field) => pass_or_fail(
            custom_value(issue.custom, field) is Some,
            "custom field \""@ + field + "\" is not set"@,
        ),
        PolicyCheckView::CustomFieldMustBe(field, expected) => custom_must_be(
            issue,
            field,
            expected,
        ),
    }
}

/// A filter's result.
fn filter(holds: bool) -> (out: StepResult)
    ensures
        result_view(out) == pass_or_skip(holds),
{
    if holds {
        Ok(StepOutcome::Pass)
    } else {
        Ok(StepOutcome::Skip)
    }
}

/// Two texts one after another.
fn text2(a: &str, b: &str) -> (out: String)
    ensures
        out@ == a@ + b@,
{
    let mut text = chars_of(a);
    push_str(&mut text, b);
    string_of(&text)
}

/// Three texts one after another.
fn text3(a: &str, b: &str, c: &str) -> (out: String)
    ensures
        out@ == a@ + b@ + c@,
{
    let mut text = chars_of(a);
    push_str(&mut text, b);
    push_str(&mut text, c);
    string_of(&text)
}

/// Five texts one after another.
fn text5(a: &str, b: &str, c: &str, d: &str, e: &str) -> (out: String)
    ensures
        out@ == a@ + b@ + c@ + d@ + e@,
{
    let mut text = chars_of(a);
    push_str(&mut text, b);
    push_str(&mut text, c);
    push_str(&mut text, d);
    push_str(&mut text, e);
    string_of(&text)
}

/// Seven texts one after another.
fn text7(a: &str, b: &str, c: &str, d: &str, e: &str, f: &str, g: &str) -> (out: String)
    ensures
        out@ == a@ + b@ + c@ + d@ + e@ + f@ + g@,
{
    let mut text = chars_of(a);
    push_str(&mut text, b);
    push_str(&mut text, c);
    push_str(&mut text, d);
    push_str(&mut text, e);
    push_str(&mut text, f);
    push_str(&mut text, g);
    string_of(&text)
}

/// The first custom field named `key`.
pub fn find_custom<'a>(custom: &'a Vec<CustomField>, key: &str) -> (out: Option<&'a CustomValue>)
    ensures
        (match out {
            Some(value) => Some(value@),
            None => None,
        }) == custom_value(custom.deep_view(), key@),
{
    let mut i: usize = 0;
    proof {
        assert(custom.deep_view().skip(0) == custom.deep_view());
    }
    while i < custom.len()
        invariant
            i <= custom.len(),
            custom_value(custom.deep_view(), key@) == custom_value(
                custom.deep_view().skip(i as int),
                key@,
            ),
        decreases custom.len() - i,
    {
        proof {
            let rest = custom.deep_view().skip(i as int);
            assert(rest[0] == custom@[i as int]@);
            assert(rest.drop_first() =~= custom.deep_view().skip(i + 1));
        }
        if same_text(custom[i].key.as_str(), key) {
            return Some(&custom[i].value);
        }
        i += 1;
    }
    proof {
        assert(custom.deep_view().skip(custom.len() as int) =~= Seq::<CustomFieldView>::empty());
    }
    None
}

/// The identifiers of the issues whose status is (or is not) `status`.
fn collect_by_status(issues: &Vec<&IssueData>, status: &str, wanted: bool) -> (out: Vec<String>)
    ensures
        out.deep_view() == identifiers_by_status(views_of(issues@), status@, wanted),
{
    let mut out: Vec<String> = Vec::new();
    let mut i: usize = 0;
    proof {
        assert(views_of(issues@).take(0) == Seq::<IssueView>::empty());
        assert(out.deep_view() =~= Seq::<Seq<char>>::empty());
    }
    while i < issues.len()
        invariant
            i <= issues.len(),
            out.deep_view() == identifiers_by_status(
                views_of(issues@).take(i as int),
                status@,
                wanted,
            ),
        decreases issues.len() - i,
    {
        proof {
            let next = views_of(issues@).take(i + 1);
            assert(next.drop_last() == views_of(issues@).take(i as int));
            assert(next.last() == issues@[i as int]@);
        }
        if same_text(issues[i].status.as_str(), status) == wanted {
            let ghost before = out.deep_view();
            out.push(issues[i].identifier.clone());
            proof {
                assert(out.deep_view() =~= before.push(issues@[i as int]@.identifier));
            }
        }
        i += 1;
    }
    proof {
        assert(views_of(issues@).take(issues.len() as int) == views_of(issues@));
    }
    out
}

/// A rule's result.
fn rule(holds: bool, message: String) -> (out: StepResult)
    ensures
        result_view(out) == pass_or_fail(holds, message@),
{
    if holds {
        Ok(StepOutcome::Pass)
    } else {
        Err(message)
    }
}

/// Whether the description or title of an issue holds more than white space.
fn has_text(text: &str) -> (out: bool)
    ensures
        out == !is_blank(text@),
{
    !is_blank_chars(&chars_of(text))
}

/// Asks for a field to be set.
fn check_must_have_field(issue: &IssueData, field: &str) -> (out: StepResult)
    ensures
        result_view(out) == must_have_field(issue@, field@),
{
    let set = if same_text(field, "assignee") {
        issue.assignee.is_some()
    } else if same_text(field, "parent") {
        issue.parent.is_some()
    } else if same_text(field, "description") {
        has_text(issue.description.as_str())
    } else if same_text(field, "title") {
        has_text(issue.title.as_str())
    } else if same_text(field, "creator") {
        issue.creator.is_some()
    } else {
        return Err(text2("unknown field: ", field));
    };
    rule(set, text3("issue does not have field \"", field, "\" set"))
}

/// Asks for a field to be unset.
fn check_must_not_have_field(issue: &IssueData, field: &str) -> (out: StepResult)
    ensures
        result_view(out) == must_not_have_field(issue@, field@),
{
    let set = if same_text(field, "assignee") {
        issue.assignee.is_some()
    } else if same_text(field, "parent") {
        issue.parent.is_some()
    } else if same_text(field, "creator") {
        issue.creator.is_some()
    } else {
        return Err(text2("unknown field: ", field));
    };
    rule(!set, text3("issue has field \"", field, "\" set but should not"))
}

/// Asks for a field to have a value.
fn check_field_must_be(issue: &IssueData, field: &str, expected: &str) -> (out: StepResult)
    ensures
        result_view(out) == field_must_be(issue@, field@, expected@),
{
    let value: Option<&String> = if same_text(field, "status") {
        Some(&issue.status)
    } else if same_text(field, "issue_type") || same_text(field, "type") {
        Some(&issue.issue_type)
    } else if same_text(field, "assignee") {
        issue.assignee.as_ref()
    } else if same_text(field, "parent") {
        issue.parent.as_ref()
    } else if same_text(field, "creator") {
        issue.creator.as_ref()
    } else {
        return Err(text2("unknown field: ", field));
    };
    match value {
        Some(text) => rule(
            same_text(text.as_str(), expected),
            text7(
                "field \"",
                field,
                "\" is \"",
                text.as_str(),
                "\" but must be \"",
                expected,
                "\"",
            ),
        ),
        None => Err(text3("field \"", field, "\" is not set")),
    }
}

/// Asks the children for their status.
fn check_children(children: &Vec<&IssueData>, status: &str, all: bool) -> (out: StepResult)
    ensures
        result_view(out) == (if all {
            all_children_have(views_of(children@), status@)
        } else {
            no_children_have(views_of(children@), status@)
        }),
{
    let found = collect_by_status(children, status, !all);
    let listed = join_strings(&found, ", ");
    if all {
        rule(
            found.len() == 0,
            text5("child issues ", listed.as_str(), " do not have status \"", status, "\""),
        )
    } else {
        rule(
            found.len() == 0,
            text5(
                "child issues ",
                listed.as_str(),
                " have status \"",
                status,
                "\" but should not",
            ),
        )
    }
}

/// Asks the parent for its status.
fn check_parent(parent: Option<&IssueData>, status: &str) -> (out: StepResult)
    ensures
        result_view(out) == parent_has(borrowed_view(parent), status@),
{
    match parent {
        Some(p) => rule(
            same_text(p.status.as_str(), status),
            text7(
                "parent issue ",
                p.identifier.as_str(),
                " has status \"",
                p.status.as_str(),
                "\" but must have status \"",
                status,
                "\"",
            ),
        ),
        None => Err(owned("issue has no parent")),
    }
}

/// Asks for a number of labels.
fn check_labels(issue: &IssueData, digits: &str) -> (out: StepResult)
    ensures
        result_view(out) == has_labels(issue@, digits@),
{
    match parse_decimal(&chars_of(digits)) {
        None => Err(owned("invalid label count")),
        Some(minimum) => {
            let actual: u64 = issue.labels.len() as u64;
            let mut message = chars_of("issue has ");
            push_all(&mut message, &format_decimal(actual));
            push_str(&mut message, " label(s) but must have at least ");
            push_all(&mut message, &format_decimal(minimum));
            rule(actual >= minimum, string_of(&message))
        },
    }
}

/// Filters by priority.
fn check_priority(issue: &IssueData, digits: &str) -> (out: StepResult)
    ensures
        result_view(out) == priority_is(issue@, digits@),
{
    match parse_decimal(&chars_of(digits)) {
        None => Err(owned("invalid priority")),
        Some(wanted) => {
            if wanted > 2147483647 {
                Err(owned("invalid priority"))
            } else {
                filter(issue.priority >= 0 && issue.priority as u64 == wanted)
            }
        },
    }
}

/// Turns a regular expression's verdict on a title into the rule's result.
pub fn title_result(title: &str, pattern: &str, verdict: Result<bool, String>) -> (out: StepResult)
    ensures
        result_view(out) == title_verdict(
            title@,
            pattern@,
            match verdict {
                Ok(found) => Ok(found),
                Err(error) => Err(error@),
            },
        ),
{
    match verdict {
        Err(error) => Err(text2("invalid regex pattern: ", error.as_str())),
        Ok(found) => rule(
            found,
            text5("title \"", title, "\" does not match pattern \"", pattern, "\""),
        ),
    }
}

/// Asks the title to match an expression.
fn check_title(issue: &IssueData, pattern: &str) -> (out: StepResult)
    ensures
        result_view(out) == title_matches(issue@, pattern@),
{
    title_result(
        issue.title.as_str(),
        pattern,
        match_pattern(pattern, issue.title.as_str()),
    )
}

/// Asks a custom field to have a value.
fn check_custom(issue: &IssueData, field: &str, expected: &str) -> (out: StepResult)
    ensures
        result_view(out) == custom_must_be(issue@, field@, expected@),
{
    match find_custom(&issue.custom, field) {
        Some(value) => {
            let text: &String = match value {
                CustomValue::Text(text) => text,
                CustomValue::Json(raw) => raw,
            };
            rule(
                same_text(text.as_str(), expected),
                text7(
                    "custom field \"",
                    field,
                    "\" is \"",
                    text.as_str(),
                    "\" but must be \"",
                    expected,
                    "\"",
                ),
            )
        },
        None => Err(text3("custom field \"", field, "\" is not set")),
    }
}

/// Evaluates one step.
pub fn execute_step(check: &PolicyCheck, context: &PolicyContext) -> (out: StepResult)
    ensures
        result_view(out) == step_result(check@, context@),
{
    let issue = context.issue();
    match check {
        PolicyCheck::IssueTypeIs(wanted) => filter(
            same_text(issue.issue_type.as_str(), wanted.as_str()),
        ),
        PolicyCheck::IssueHasLabel(label) => filter(contains_text(&issue.labels, label.as_str())),
        PolicyCheck::IssueHasParent => filter(issue.parent.is_some()),
        PolicyCheck::IssuePriorityIs(digits) => check_priority(issue, digits.as_str()),
        PolicyCheck::CustomFieldIsSet(field) => filter(
            find_custom(&issue.custom, field.as_str()).is_some(),
        ),
        PolicyCheck::TransitioningTo(status) => filter(context.is_transitioning_to(status.as_str())),
        PolicyCheck::TransitioningFrom(status) => filter(
            context.is_transitioning_from(status.as_str()),
        ),
        PolicyCheck::TransitioningFromTo(from, to) => filter(
            context.is_transitioning_from(from.as_str()) && context.is_transitioning_to(to.as_str()),
        ),
        PolicyCheck::CreatingIssue => filter(
            match context.operation {
                PolicyOperation::Create => true,
                _ => false,
            },
        ),
        PolicyCheck::ClosingIssue => filter(
            match context.operation {
                PolicyOperation::Close => true,
                _ => false,
            },
        ),
        PolicyCheck::MustHaveField(field) => check_must_have_field(issue, field.as_str()),
        PolicyCheck::MustNotHaveField(field) => check_must_not_have_field(issue, field.as_str()),
        PolicyCheck::FieldMustBe(field, expected) => check_field_must_be(
            issue,
            field.as_str(),
            expected.as_str(),
        ),
        PolicyCheck::AllChildrenMustHaveStatus(status) => check_children(
            &context.child_issues(),
            status.as_str(),
            true,
        ),
        PolicyCheck::NoChildrenMayHaveStatus(status) => check_children(
            &context.child_issues(),
            status.as_str(),
            false,
        ),
        PolicyCheck::ParentMustHaveStatus(status) => check_parent(
            context.parent_issue(),
            status.as_str(),
        ),
        PolicyCheck::AtLeastLabels(digits) => check_labels(issue, digits.as_str()),
        PolicyCheck::MustHaveLabel(label) => rule(
            contains_text(&issue.labels, label.as_str()),
            text3("issue does not have label \"", label.as_str(), "\""),
        ),
        PolicyCheck::DescriptionNotEmpty => rule(
            has_text(issue.description.as_str()),
            owned("issue description is empty"),
        ),
        PolicyCheck::TitleMustMatch(pattern) => check_title(issue, pattern.as_str()),
        PolicyCheck::CustomFieldMustBeSet(field) => rule(
            find_custom(&issue.custom, field.as_str()).is_some(),
            text3("custom field \"", field.as_str(), "\" is not set"),
        ),
        PolicyCheck::CustomFieldMustBe(field, expected) => check_custom(
            issue,
            field.as_str(),
            expected.as_str(),
        ),
    }
}

impl StepDefinition {
    /// Execute the step on what `captures` holds of its text.
    pub fn execute(&self, context: &PolicyContext, captures: &PolicyCheck) -> (out: StepResult)
        ensures
            result_view(out) == step_result(captures@, context@),
    {
        execute_step(captures, context)
    }
}

} // verus!
