//! The lines that commands print for issues.

use crate::decimal::{decimal_digits, format_decimal};
use crate::dependencies::{any_blocking, RELATES_TO};
use crate::error::{text_result, unit_result, KanbusError, KanbusErrorView};
use crate::index::BLOCKED_BY;
use crate::models::{
    option_text, CustomFieldView, CustomValue, CustomValueView, IssueData, IssueView,
};
use crate::text::{
    chars_of, is_blank, is_blank_chars, join, join_strings, owned, push_all, push_str, same_text,
    string_of,
};
use vstd::prelude::*;

verus! {

/// Output produced by a CLI command.
#[derive(Debug)]
pub struct CommandOutput {
    pub stdout: String,
}

impl Default for CommandOutput {
    fn default() -> (out: Self)
        ensures
            out.stdout@.len() == 0,
    {
        CommandOutput { stdout: String::new() }
    }
}

/// The value of the first field of `custom` named `key`, if there is one.
pub open spec fn custom_value(custom: Seq<CustomFieldView>, key: Seq<char>) -> Option<CustomValueView>
    decreases custom.len(),
{
    if custom.len() == 0 {
        None
    } else if custom[0].key == key {
        Some(custom[0].value)
    } else {
        custom_value(custom.drop_first(), key)
    }
}

/// What goes before an issue's identifier in a listing: the path of its
/// project and a space, where the issue carries a project path as text.
pub open spec fn line_prefix(issue: IssueView) -> Seq<char> {
    match custom_value(issue.custom, "project_path"@) {
        Some(CustomValueView::Text(path)) => path + " "@,
        _ => Seq::empty(),
    }
}

/// The line that lists an issue: prefix, identifier and title.
pub open spec fn issue_line(issue: IssueView) -> Seq<char> {
    line_prefix(issue) + issue.identifier + " "@ + issue.title
}

/// The line that lists a ready issue: prefix and identifier.
pub open spec fn ready_line(issue: IssueView) -> Seq<char> {
    line_prefix(issue) + issue.identifier
}

/// The prefix of an issue's line.
fn prefix_of(issue: &IssueData) -> (out: Vec<char>)
    ensures
        out@ == line_prefix(issue@),
{
    let mut i: usize = 0;
    proof {
        assert(issue@.custom.skip(0) == issue@.custom);
    }
    while i < issue.custom.len()
        invariant
            i <= issue.custom.len(),
            custom_value(issue@.custom, "project_path"@) == custom_value(
                issue@.custom.skip(i as int),
                "project_path"@,
            ),
        decreases issue.custom.len() - i,
    {
        proof {
            let rest = issue@.custom.skip(i as int);
            assert(rest[0] == issue.custom@[i as int]@);
            assert(rest.drop_first() =~= issue@.custom.skip(i + 1));
        }
        if same_text(issue.custom[i].key.as_str(), "project_path") {
            match &issue.custom[i].value {
                CustomValue::Text(path) => {
                    let mut out = chars_of(path.as_str());
                    push_str(&mut out, " ");
                    return out;
                },
                CustomValue::Json(_) => {
                    return Vec::new();
                },
            }
        }
        i += 1;
    }
    proof {
        assert(issue@.custom.skip(issue.custom.len() as int) =~= Seq::<CustomFieldView>::empty());
    }
    Vec::new()
}

/// The line that a listing prints for `issue`.
pub fn format_issue_line(issue: &IssueData) -> (out: String)
    ensures
        out@ == issue_line(issue@),
{
    let mut line = prefix_of(issue);
    push_str(&mut line, issue.identifier.as_str());
    push_str(&mut line, " ");
    push_str(&mut line, issue.title.as_str());
    string_of(&line)
}

/// The line that the ready listing prints for `issue`.
pub fn format_ready_line(issue: &IssueData) -> (out: String)
    ensures
        out@ == ready_line(issue@),
{
    let mut line = prefix_of(issue);
    push_str(&mut line, issue.identifier.as_str());
    string_of(&line)
}

/// Whether `issue` waits for another issue.
pub fn is_issue_blocked(issue: &IssueData) -> (out: bool)
    ensures
        out == any_blocking(issue@.dependencies),
{
    crate::dependencies::is_blocked(issue)
}

/// The title that the words of a command line give: the words with a space
/// between neighbours. A title of nothing but white space is refused.
pub fn title_from_words(words: &Vec<String>) -> (out: Result<String, KanbusError>)
    ensures
        text_result(out) == (if is_blank(join(words.deep_view(), " "@)) {
            Err::<Seq<char>, KanbusErrorView>(KanbusErrorView::IssueOperation("title is required"@))
        } else {
            Ok(join(words.deep_view(), " "@))
        }),
{
    let title = join_strings(words, " ");
    if is_blank_chars(&chars_of(title.as_str())) {
        Err(KanbusError::IssueOperation(owned("title is required")))
    } else {
        Ok(title)
    }
}

/// The text that the words of an option give, if any.
pub open spec fn words_text(words: Option<Seq<Seq<char>>>) -> Option<Seq<char>> {
    match words {
        Some(given) => if join(given, " "@).len() == 0 {
            None
        } else {
            Some(join(given, " "@))
        },
        None => None,
    }
}

/// The text that the words of an option give: the words with a space between
/// neighbours, or nothing where the option was not given or gave no text.
pub fn text_from_words(words: Option<&Vec<String>>) -> (out: Option<String>)
    ensures
        option_text(out) == words_text(
            match words {
                Some(given) => Some(given.deep_view()),
                None => None,
            },
        ),
{
    match words {
        Some(given) => {
            let text = join_strings(given, " ");
            if chars_of(text.as_str()).len() == 0 {
                None
            } else {
                Some(text)
            }
        },
        None => None,
    }
}

/// The issue that a dependency command names and the type of the
/// dependency: a blocker goes before a relation, and one of the two must be
/// given.
pub fn dependency_choice(blocked_by: Option<String>, relates_to: Option<String>) -> (out: Result<
    (String, &'static str),
    KanbusError,
>)
    ensures
        match (blocked_by, relates_to) {
            (Some(target), _) => out matches Ok(choice) && choice.0 == target && choice.1@
                == BLOCKED_BY@,
            (None, Some(target)) => out matches Ok(choice) && choice.0 == target && choice.1@
                == RELATES_TO@,
            (None, None) => out matches Err(e) && e@ == KanbusErrorView::IssueOperation(
                "dependency target is required"@,
            ),
        },
{
    match (blocked_by, relates_to) {
        (Some(target), _) => Ok((target, BLOCKED_BY)),
        (None, Some(target)) => Ok((target, RELATES_TO)),
        (None, None) => Err(KanbusError::IssueOperation(owned("dependency target is required"))),
    }
}

/// Checks that a listing from a Beads repository asks for no filtering by
/// place: such a repository has no local issues.
pub fn check_beads_filters(local_only: bool, no_local: bool) -> (out: Result<(), KanbusError>)
    ensures
        unit_result(out) == (if local_only || no_local {
            Err::<(), KanbusErrorView>(
                KanbusErrorView::IssueOperation("beads mode does not support local filtering"@),
            )
        } else {
            Ok(())
        }),
{
    if local_only || no_local {
        Err(KanbusError::IssueOperation(owned("beads mode does not support local filtering")))
    } else {
        Ok(())
    }
}

/// The line that reports a finished migration.
pub fn migrated_line(issue_count: usize) -> (out: String)
    ensures
        out@ == "migrated "@ + decimal_digits(issue_count as nat) + " issues"@,
{
    let mut line = chars_of("migrated ");
    push_all(&mut line, &format_decimal(issue_count as u64));
    push_str(&mut line, " issues");
    string_of(&line)
}

/// The lines of `issues`, one per issue.
pub open spec fn issue_lines(issues: Seq<IssueView>) -> Seq<Seq<char>> {
    Seq::new(issues.len(), |i: int| issue_line(issues[i]))
}

/// The lines of ready `issues`, one per issue.
pub open spec fn ready_lines(issues: Seq<IssueView>) -> Seq<Seq<char>> {
    Seq::new(issues.len(), |i: int| ready_line(issues[i]))
}

/// What a listing prints: the line of each issue, with a line feed between
/// neighbours.
pub fn format_issue_lines(issues: &Vec<IssueData>) -> (out: String)
    ensures
        out@ == join(issue_lines(issues.deep_view()), "\n"@),
{
    let mut lines: Vec<String> = Vec::new();
    let mut i: usize = 0;
    while i < issues.len()
        invariant
            i <= issues.len(),
            lines.deep_view() == issue_lines(issues.deep_view()).take(i as int),
        decreases issues.len() - i,
    {
        let ghost before = lines.deep_view();
        lines.push(format_issue_line(&issues[i]));
        proof {
            assert(lines.deep_view() =~= before.push(issue_line(issues@[i as int]@)));
            assert(issue_lines(issues.deep_view()).take(i + 1) =~= before.push(
                issue_line(issues@[i as int]@),
            ));
        }
        i += 1;
    }
    proof {
        assert(issue_lines(issues.deep_view()).take(issues.len() as int) == issue_lines(
            issues.deep_view(),
        ));
    }
    join_strings(&lines, "\n")
}

/// What the ready listing prints: the line of each issue, with a line feed
/// between neighbours.
pub fn format_ready_lines(issues: &Vec<IssueData>) -> (out: String)
    ensures
        out@ == join(ready_lines(issues.deep_view()), "\n"@),
{
    let mut lines: Vec<String> = Vec::new();
    let mut i: usize = 0;
    while i < issues.len()
        invariant
            i <= issues.len(),
            lines.deep_view() == ready_lines(issues.deep_view()).take(i as int),
        decreases issues.len() - i,
    {
        let ghost before = lines.deep_view();
        lines.push(format_ready_line(&issues[i]));
        proof {
            assert(lines.deep_view() =~= before.push(ready_line(issues@[i as int]@)));
            assert(ready_lines(issues.deep_view()).take(i + 1) =~= before.push(
                ready_line(issues@[i as int]@),
            ));
        }
        i += 1;
    }
    proof {
        assert(ready_lines(issues.deep_view()).take(issues.len() as int) == ready_lines(
            issues.deep_view(),
        ));
    }
    join_strings(&lines, "\n")
}

} // verus!
