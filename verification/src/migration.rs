//! Rules for issues taken over from a Beads repository.

use crate::dependencies::issue_result;
use crate::error::{unit_result, KanbusError, KanbusErrorView};
use crate::issue_lookup::not_found_error;
use crate::models::{
    IssueComment, IssueCommentView, IssueData, IssueView, ProjectConfiguration, Timestamp,
    Workflow,
};
use crate::policy_context::first_with_identifier;
use crate::text::{
    chars_of, contains_text, is_blank, is_blank_chars, owned, push_str, same_text, string_of,
};
use vstd::prelude::*;

verus! {

/// Result of a migration run.
#[derive(Debug, Clone, Copy)]
pub struct MigrationResult {
    pub issue_count: usize,
}

/// The first of `issues` with the identifier `identifier`.
pub fn load_beads_issue_by_id(issues: Vec<IssueData>, identifier: &str) -> (out: Result<
    IssueData,
    KanbusError,
>)
    ensures
        issue_result(out) == (match first_with_identifier(issues.deep_view(), identifier@) {
            Some(issue) => Ok::<IssueView, KanbusErrorView>(issue),
            None => Err(not_found_error()),
        }),
{
    broadcast use vstd::std_specs::vec::axiom_spec_into_iter;

    let ghost all = issues.deep_view();
    let ghost raw = issues@;
    proof {
        assert(all.skip(0) == all);
    }
    for issue in it: issues.into_iter()
        invariant
            it.seq() == raw,
            all == issues.deep_view(),
            all.len() == raw.len(),
            forall|k: int| 0 <= k < raw.len() ==> #[trigger] all[k] == raw[k]@,
            first_with_identifier(all, identifier@) == first_with_identifier(
                all.skip(it.index() as int),
                identifier@,
            ),
    {
        proof {
            let rest = all.skip(it.index() as int);
            assert(rest[0] == issue@);
            assert(rest.drop_first() =~= all.skip(it.index() + 1));
        }
        if same_text(issue.identifier.as_str(), identifier) {
            return Ok(issue);
        }
    }
    proof {
        assert(all.skip(all.len() as int) =~= Seq::<IssueView>::empty());
    }
    Err(KanbusError::IssueOperation(owned("not found")))
}

/// Checks that `issue_type` is one of the project's types: it stands in the
/// hierarchy or among the further types.
pub fn validate_issue_type(configuration: &ProjectConfiguration, issue_type: &str) -> (out: Result<
    (),
    KanbusError,
>)
    ensures
        unit_result(out) == (if configuration@.hierarchy.contains(issue_type@)
            || configuration@.types.contains(issue_type@) {
            Ok::<(), KanbusErrorView>(())
        } else {
            Err(KanbusErrorView::IssueOperation("unknown issue type"@))
        }),
{
    if contains_text(&configuration.hierarchy, issue_type) || contains_text(&configuration.types, issue_type) {
        Ok(())
    } else {
        Err(KanbusError::IssueOperation(owned("unknown issue type")))
    }
}

/// Whether `workflow` knows the status `status`: a rule starts from it or
/// leads to it.
pub open spec fn workflow_knows(workflow: Workflow, status: Seq<char>) -> bool {
    exists|i: int|
        0 <= i < workflow.transitions.len() && ((#[trigger] workflow.transitions[i]).from@ == status
            || workflow.transitions[i].to.deep_view().contains(status))
}

/// Checks that `status` is a status of `workflow`.
pub fn validate_status(workflow: &Workflow, status: &str) -> (out: Result<(), KanbusError>)
    ensures
        unit_result(out) == (if workflow_knows(*workflow, status@) {
            Ok::<(), KanbusErrorView>(())
        } else {
            Err(KanbusErrorView::IssueOperation("invalid status"@))
        }),
{
    let mut i: usize = 0;
    while i < workflow.transitions.len()
        invariant
            i <= workflow.transitions.len(),
            forall|j: int|
                0 <= j < i ==> !((#[trigger] workflow.transitions[j]).from@ == status@
                    || workflow.transitions[j].to.deep_view().contains(status@)),
        decreases workflow.transitions.len() - i,
    {
        if same_text(workflow.transitions[i].from.as_str(), status) || contains_text(
            &workflow.transitions[i].to,
            status,
        ) {
            return Ok(());
        }
        i += 1;
    }
    Err(KanbusError::IssueOperation(owned("invalid status")))
}

/// The error for a field that a record must have.
pub open spec fn required_error(field: Seq<char>) -> KanbusErrorView {
    KanbusErrorView::IssueOperation(field + " is required"@)
}

/// The text of a field that a record must have: it must hold more than
/// white space. `value` is the field's text, or `None` where the record has
/// no such field or holds no text in it.
pub fn required_string(value: Option<&str>, key: &str) -> (out: Result<String, KanbusError>)
    ensures
        crate::error::text_result(out) == (match value {
            Some(text) if !is_blank(text@) => Ok::<Seq<char>, KanbusErrorView>(text@),
            _ => Err(required_error(key@)),
        }),
{
    match value {
        Some(text) => {
            if !is_blank_chars(&chars_of(text)) {
                return Ok(owned(text));
            }
        },
        None => {},
    }
    let mut message = chars_of(key);
    push_str(&mut message, " is required");
    Err(KanbusError::IssueOperation(string_of(&message)))
}

/// What a record holds where a point in time is expected.
#[derive(Debug)]
pub enum TimeField {
    /// The field is absent or null.
    Missing,
    /// The field holds this text.
    Text(String),
    /// The field holds something that is no text.
    Other,
}

/// Mathematical content of [`TimeField`].
pub enum TimeFieldView {
    Missing,
    Text(Seq<char>),
    Other,
}

impl View for TimeField {
    type V = TimeFieldView;

    open spec fn view(&self) -> TimeFieldView {
        match self {
            TimeField::Missing => TimeFieldView::Missing,
            TimeField::Text(text) => TimeFieldView::Text(text@),
            TimeField::Other => TimeFieldView::Other,
        }
    }
}

/// `text` with `+00:00` in place of every `Z`.
pub open spec fn with_offsets(text: Seq<char>) -> Seq<char>
    decreases text.len(),
{
    if text.len() == 0 {
        Seq::empty()
    } else if text.last() == 'Z' {
        with_offsets(text.drop_last()) + "+00:00"@
    } else {
        with_offsets(text.drop_last()).push(text.last())
    }
}

/// The text that is read as a point in time: where `text` ends in `Z`, each
/// `Z` in it gives way to `+00:00`.
pub open spec fn normalized(text: Seq<char>) -> Seq<char> {
    if text.len() > 0 && text.last() == 'Z' {
        with_offsets(text)
    } else {
        text
    }
}

/// Executable form of [`normalized`].
pub fn normalize_timestamp(text: &str) -> (out: String)
    ensures
        out@ == normalized(text@),
{
    let given = chars_of(text);
    if given.len() == 0 || given[given.len() - 1] != 'Z' {
        return owned(text);
    }
    let mut out: Vec<char> = Vec::new();
    let mut i: usize = 0;
    proof {
        assert(given@.take(0) =~= Seq::<char>::empty());
    }
    while i < given.len()
        invariant
            i <= given.len(),
            out@ == with_offsets(given@.take(i as int)),
        decreases given.len() - i,
    {
        proof {
            let next = given@.take(i + 1);
            assert(next.drop_last() == given@.take(i as int));
            assert(next.last() == given@[i as int]);
        }
        if given[i] == 'Z' {
            push_str(&mut out, "+00:00");
        } else {
            out.push(given[i]);
        }
        i += 1;
    }
    proof {
        assert(given@.take(given.len() as int) == given@);
    }
    string_of(&out)
}

/// The point in time that a text names by RFC 3339, in seconds and
/// nanoseconds of universal time, where it names one.
pub uninterp spec fn rfc3339_moment(text: Seq<char>) -> Option<Timestamp>;

/// Reads a point in time.
///
/// Trusted: calls `chrono::DateTime::parse_from_rfc3339` and reads the
/// result with `timestamp` and `timestamp_subsec_nanos`. The parser reads
/// nothing but its argument; what it gives is named `rfc3339_moment`.
#[verifier::external_body]
fn read_rfc3339(text: &str) -> (out: Option<Timestamp>)
    ensures
        out == rfc3339_moment(text@),
{
    match chrono::DateTime::parse_from_rfc3339(text) {
        Ok(moment) => Some(
            Timestamp { seconds: moment.timestamp(), nanos: moment.timestamp_subsec_nanos() },
        ),
        Err(_) => None,
    }
}

/// What reading a text as a point in time comes to for the field
/// `field`.
pub open spec fn moment_of(parsed: Option<Timestamp>, field: Seq<char>) -> Result<
    Timestamp,
    KanbusErrorView,
> {
    match parsed {
        Some(moment) => Ok(moment),
        None => Err(KanbusErrorView::IssueOperation("invalid "@ + field)),
    }
}

/// What a result with a point in time comes to, by its content.
pub open spec fn moment_result(out: Result<Timestamp, KanbusError>) -> Result<
    Timestamp,
    KanbusErrorView,
> {
    match out {
        Ok(moment) => Ok(moment),
        Err(error) => Err(error@),
    }
}

/// Turns what reading a text as a point in time gave into the outcome for
/// the field `field_name`.
pub fn timestamp_from(parsed: Option<Timestamp>, field_name: &str) -> (out: Result<
    Timestamp,
    KanbusError,
>)
    ensures
        moment_result(out) == moment_of(parsed, field_name@),
{
    match parsed {
        Some(moment) => Ok(moment),
        None => {
            let mut message = chars_of("invalid ");
            push_str(&mut message, field_name);
            Err(KanbusError::IssueOperation(string_of(&message)))
        },
    }
}

/// The point in time that the field `field` of a record holds: the field
/// must be there, hold text that is not empty, and the text must name a point
/// in time.
pub open spec fn timestamp_of(value: TimeFieldView, field: Seq<char>) -> Result<
    Timestamp,
    KanbusErrorView,
> {
    match value {
        TimeFieldView::Missing => Err(required_error(field)),
        TimeFieldView::Other => Err(KanbusErrorView::IssueOperation(field + " must be a string"@)),
        TimeFieldView::Text(text) => if text.len() == 0 {
            Err(required_error(field))
        } else {
            moment_of(rfc3339_moment(normalized(text)), field)
        },
    }
}

/// Reads the point in time that a field of a record holds.
pub fn parse_timestamp(value: &TimeField, field_name: &str) -> (out: Result<Timestamp, KanbusError>)
    ensures
        moment_result(out) == timestamp_of(value@, field_name@),
{
    match value {
        TimeField::Missing => {
            let mut message = chars_of(field_name);
            push_str(&mut message, " is required");
            Err(KanbusError::IssueOperation(string_of(&message)))
        },
        TimeField::Other => {
            let mut message = chars_of(field_name);
            push_str(&mut message, " must be a string");
            Err(KanbusError::IssueOperation(string_of(&message)))
        },
        TimeField::Text(text) => {
            if chars_of(text.as_str()).len() == 0 {
                let mut message = chars_of(field_name);
                push_str(&mut message, " is required");
                return Err(KanbusError::IssueOperation(string_of(&message)));
            }
            let wanted = normalize_timestamp(text.as_str());
            timestamp_from(read_rfc3339(wanted.as_str()), field_name)
        },
    }
}

/// A comment as a record holds it.
#[derive(Debug)]
pub struct BeadsComment {
    pub author: Option<String>,
    pub text: Option<String>,
    pub created_at: TimeField,
}

/// Mathematical content of [`BeadsComment`].
pub struct BeadsCommentView {
    pub author: Option<Seq<char>>,
    pub text: Option<Seq<char>>,
    pub created_at: TimeFieldView,
}

impl View for BeadsComment {
    type V = BeadsCommentView;

    open spec fn view(&self) -> BeadsCommentView {
        BeadsCommentView {
            author: crate::models::option_text(self.author),
            text: crate::models::option_text(self.text),
            created_at: self.created_at@,
        }
    }
}

impl DeepView for BeadsComment {
    type V = BeadsCommentView;

    open spec fn deep_view(&self) -> BeadsCommentView {
        self@
    }
}

/// The text of an optional field, empty where there is none.
pub open spec fn text_or_empty(value: Option<Seq<char>>) -> Seq<char> {
    match value {
        Some(text) => text,
        None => Seq::empty(),
    }
}

/// The comment that a record's comment gives: author and text must hold
/// more than white space, and the time must be readable.
pub open spec fn converted_comment(comment: BeadsCommentView) -> Result<
    IssueCommentView,
    KanbusErrorView,
> {
    if is_blank(text_or_empty(comment.author)) || is_blank(text_or_empty(comment.text)) {
        Err(KanbusErrorView::IssueOperation("invalid comment"@))
    } else {
        match timestamp_of(comment.created_at, "comment.created_at"@) {
            Ok(moment) => Ok(
                IssueCommentView {
                    id: None,
                    author: text_or_empty(comment.author),
                    text: text_or_empty(comment.text),
                    created_at: moment,
                },
            ),
            Err(error) => Err(error),
        }
    }
}

/// The comments that a record's comments give, in order, or the first
/// failure among them.
pub open spec fn converted_comments(comments: Seq<BeadsCommentView>) -> Result<
    Seq<IssueCommentView>,
    KanbusErrorView,
>
    decreases comments.len(),
{
    if comments.len() == 0 {
        Ok(Seq::empty())
    } else {
        match converted_comments(comments.drop_last()) {
            Err(error) => Err(error),
            Ok(before) => match converted_comment(comments.last()) {
                Err(error) => Err(error),
                Ok(comment) => Ok(before.push(comment)),
            },
        }
    }
}

/// A failure among the first comments is the failure of the whole.
proof fn lemma_comment_failure_stays(comments: Seq<BeadsCommentView>, n: int)
    requires
        0 <= n <= comments.len(),
        converted_comments(comments.take(n)) is Err,
    ensures
        converted_comments(comments) == converted_comments(comments.take(n)),
    decreases comments.len() - n,
{
    if n == comments.len() {
        assert(comments.take(n) == comments);
    } else {
        assert(comments.drop_last().take(n) == comments.take(n));
        lemma_comment_failure_stays(comments.drop_last(), n);
    }
}

/// An owned copy of an optional text, empty where there is none.
fn owned_or_empty(value: &Option<String>) -> (out: String)
    ensures
        out@ == text_or_empty(crate::models::option_text(*value)),
{
    match value {
        Some(text) => text.clone(),
        None => String::new(),
    }
}

/// Converts one comment.
fn convert_comment(comment: &BeadsComment) -> (out: Result<IssueComment, KanbusError>)
    ensures
        (match out {
            Ok(converted) => Ok::<IssueCommentView, KanbusErrorView>(converted@),
            Err(error) => Err(error@),
        }) == converted_comment(comment@),
{
    let author = owned_or_empty(&comment.author);
    let text = owned_or_empty(&comment.text);
    if is_blank_chars(&chars_of(author.as_str())) || is_blank_chars(&chars_of(text.as_str())) {
        return Err(KanbusError::IssueOperation(owned("invalid comment")));
    }
    match parse_timestamp(&comment.created_at, "comment.created_at") {
        Ok(created_at) => Ok(IssueComment { id: None, author, text, created_at }),
        Err(error) => Err(error),
    }
}

/// Converts the comments of a record; a record without comments has none.
pub fn convert_comments(comments: Option<&Vec<BeadsComment>>) -> (out: Result<
    Vec<IssueComment>,
    KanbusError,
>)
    ensures
        (match out {
            Ok(converted) => Ok::<Seq<IssueCommentView>, KanbusErrorView>(converted.deep_view()),
            Err(error) => Err(error@),
        }) == (match comments {
            Some(given) => converted_comments(given.deep_view()),
            None => Ok(Seq::empty()),
        }),
{
    let mut results: Vec<IssueComment> = Vec::new();
    proof {
        assert(results.deep_view() =~= Seq::<IssueCommentView>::empty());
    }
    let given = match comments {
        Some(given) => given,
        None => {
            return Ok(results);
        },
    };
    let mut i: usize = 0;
    proof {
        assert(given.deep_view().take(0) =~= Seq::<BeadsCommentView>::empty());
    }
    while i < given.len()
        invariant
            i <= given.len(),
            comments == Some(given),
            converted_comments(given.deep_view().take(i as int)) == Ok::<
                Seq<IssueCommentView>,
                KanbusErrorView,
            >(results.deep_view()),
        decreases given.len() - i,
    {
        proof {
            let next = given.deep_view().take(i + 1);
            assert(next.drop_last() == given.deep_view().take(i as int));
            assert(next.last() == given@[i as int]@);
        }
        match convert_comment(&given[i]) {
            Ok(comment) => {
                let ghost before = results.deep_view();
                results.push(comment);
                proof {
                    assert(results.deep_view() =~= before.push(comment@));
                }
            },
            Err(error) => {
                proof {
                    lemma_comment_failure_stays(given.deep_view(), i + 1);
                }
                return Err(error);
            },
        }
        i += 1;
    }
    proof {
        assert(given.deep_view().take(given.len() as int) == given.deep_view());
    }
    Ok(results)
}

} // verus!
