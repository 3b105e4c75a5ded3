//! The issues under which the findings of the vulnerability feed are kept:
//! an initiative, the epics below it, and one task for each affected file.

use crate::cli::custom_value;
use crate::models::{
    option_text, CustomField, CustomFieldView, CustomValue, CustomValueView, IssueData, IssueView, Timestamp,
};
use crate::policy_execution::find_custom;
use crate::snyk_mapping::text_entry;
use crate::text_map::TextMap;
use crate::snyk_sync::SNYK_INITIATIVE_TITLE;
use crate::lines::{first_index_of, lemma_first_index_of};
use crate::text::{
    chars_of, contains_text, ends_with, ends_with_chars, owned, push_all, push_str, same_text,
    slice_of, starts_with, starts_with_chars, string_of, trim, trim_chars,
};
use vstd::prelude::*;

verus! {

/// An open issue of the feed with nothing in it but what is given.
pub open spec fn feed_issue(
    identifier: Seq<char>,
    title: Seq<char>,
    description: Seq<char>,
    issue_type: Seq<char>,
    priority: i32,
    parent: Option<Seq<char>>,
    labels: Seq<Seq<char>>,
    custom: Seq<CustomFieldView>,
    now: Timestamp,
) -> IssueView {
    IssueView {
        identifier,
        title,
        description,
        issue_type,
        status: "open"@,
        priority,
        assignee: None,
        creator: None,
        parent,
        labels,
        dependencies: Seq::empty(),
        comments: Seq::empty(),
        created_at: now,
        updated_at: now,
        closed_at: None,
        custom,
    }
}

/// Builds an open issue of the feed.
fn new_feed_issue(
    identifier: &str,
    title: &str,
    description: String,
    issue_type: &str,
    priority: i32,
    parent: Option<&str>,
    labels: Vec<String>,
    custom: Vec<CustomField>,
    now: Timestamp,
) -> (out: IssueData)
    ensures
        out@ == feed_issue(
            identifier@,
            title@,
            description@,
            issue_type@,
            priority,
            match parent {
                Some(p) => Some(p@),
                None => None,
            },
            labels.deep_view(),
            custom.deep_view(),
            now,
        ),
{
    let issue = IssueData {
        identifier: owned(identifier),
        title: owned(title),
        description,
        issue_type: owned(issue_type),
        status: owned("open"),
        priority,
        assignee: None,
        creator: None,
        parent: match parent {
            Some(p) => Some(owned(p)),
            None => None,
        },
        labels,
        dependencies: Vec::new(),
        comments: Vec::new(),
        created_at: now,
        updated_at: now,
        closed_at: None,
        custom,
    };
    proof {
        assert(issue.dependencies.deep_view() =~= Seq::empty());
        assert(issue.comments.deep_view() =~= Seq::empty());
    }
    issue
}

/// The labels `security` and `snyk`, and `further` behind them where it is
/// given.
fn labels_with(further: Option<&str>) -> (out: Vec<String>)
    ensures
        out.deep_view() == (match further {
            Some(label) => seq!["security"@, "snyk"@, label@],
            None => seq!["security"@, "snyk"@],
        }),
{
    let mut labels: Vec<String> = Vec::new();
    labels.push(owned("security"));
    labels.push(owned("snyk"));
    match further {
        Some(label) => {
            labels.push(owned(label));
            proof {
                assert(labels.deep_view() =~= seq!["security"@, "snyk"@, label@]);
            }
        },
        None => {
            proof {
                assert(labels.deep_view() =~= seq!["security"@, "snyk"@]);
            }
        },
    }
    labels
}

/// The custom fields that hold the texts given, in order.
fn text_entries(first: (&str, &str), second: Option<(&str, &str)>) -> (out: Vec<CustomField>)
    ensures
        out.deep_view() == (match second {
            Some(pair) => seq![text_entry(first.0@, first.1@), text_entry(pair.0@, pair.1@)],
            None => seq![text_entry(first.0@, first.1@)],
        }),
{
    let mut custom: Vec<CustomField> = Vec::new();
    custom.push(CustomField { key: owned(first.0), value: CustomValue::Text(owned(first.1)) });
    match second {
        Some(pair) => {
            custom.push(CustomField { key: owned(pair.0), value: CustomValue::Text(owned(pair.1)) });
            proof {
                assert(custom.deep_view() =~= seq![
                    text_entry(first.0@, first.1@),
                    text_entry(pair.0@, pair.1@),
                ]);
            }
        },
        None => {
            proof {
                assert(custom.deep_view() =~= seq![text_entry(first.0@, first.1@)]);
            }
        },
    }
    custom
}

/// The epic that holds all findings where the project names one epic for
/// them and that epic is missing.
pub fn parent_epic(identifier: &str, now: Timestamp) -> (out: IssueData)
    ensures
        out@ == feed_issue(
            identifier@,
            "Snyk Vulnerabilities"@,
            "Security vulnerabilities imported from Snyk."@,
            "epic"@,
            1,
            None,
            seq!["security"@, "snyk"@],
            Seq::empty(),
            now,
        ),
{
    let custom: Vec<CustomField> = Vec::new();
    proof {
        assert(custom.deep_view() =~= Seq::<CustomFieldView>::empty());
    }
    new_feed_issue(
        identifier,
        "Snyk Vulnerabilities",
        owned("Security vulnerabilities imported from Snyk."),
        "epic",
        1,
        None,
        labels_with(None),
        custom,
        now,
    )
}

/// The initiative under which the epics of the feed stand.
pub fn snyk_initiative(identifier: &str, now: Timestamp) -> (out: IssueData)
    ensures
        out@ == feed_issue(
            identifier@,
            SNYK_INITIATIVE_TITLE@,
            "Track remediation of Snyk vulnerabilities."@,
            "initiative"@,
            1,
            None,
            seq!["security"@, "snyk"@],
            Seq::empty(),
            now,
        ),
{
    let custom: Vec<CustomField> = Vec::new();
    proof {
        assert(custom.deep_view() =~= Seq::<CustomFieldView>::empty());
    }
    new_feed_issue(
        identifier,
        SNYK_INITIATIVE_TITLE,
        owned("Track remediation of Snyk vulnerabilities."),
        "initiative",
        1,
        None,
        labels_with(None),
        custom,
        now,
    )
}

/// The epic for the findings of one category under the initiative.
pub fn snyk_epic(
    identifier: &str,
    title: &str,
    category: &str,
    priority: i32,
    parent_initiative: &str,
    now: Timestamp,
) -> (out: IssueData)
    ensures
        out@ == feed_issue(
            identifier@,
            title@,
            "Security vulnerabilities imported from Snyk."@,
            "epic"@,
            priority,
            Some(parent_initiative@),
            seq!["security"@, "snyk"@, category@],
            seq![text_entry("snyk_category"@, category@)],
            now,
        ),
{
    new_feed_issue(
        identifier,
        title,
        owned("Security vulnerabilities imported from Snyk."),
        "epic",
        priority,
        Some(parent_initiative),
        labels_with(Some(category)),
        text_entries(("snyk_category", category), None),
        now,
    )
}

/// The task for the findings in one file under an epic.
pub fn file_task(
    identifier: &str,
    target_file: &str,
    category: &str,
    priority: i32,
    epic_id: &str,
    now: Timestamp,
) -> (out: IssueData)
    ensures
        out@ == feed_issue(
            identifier@,
            target_file@,
            "Snyk vulnerabilities found in `"@ + target_file@ + "`."@,
            "task"@,
            priority,
            Some(epic_id@),
            seq!["security"@, "snyk"@],
            seq![
                text_entry("snyk_category"@, category@),
                text_entry("snyk_target_file"@, target_file@),
            ],
            now,
        ),
{
    let mut description = chars_of("Snyk vulnerabilities found in `");
    push_str(&mut description, target_file);
    push_str(&mut description, "`.");
    new_feed_issue(
        identifier,
        target_file,
        string_of(&description),
        "task",
        priority,
        Some(epic_id),
        labels_with(None),
        text_entries(("snyk_category", category), Some(("snyk_target_file", target_file))),
        now,
    )
}

/// `custom` with the text `value` under `key`: in place of the first field
/// of that key, or behind the others where there is none.
pub open spec fn with_text_field(custom: Seq<CustomFieldView>, key: Seq<char>, value: Seq<char>) -> Seq<
    CustomFieldView,
>
    decreases custom.len(),
{
    if custom.len() == 0 {
        seq![text_entry(key, value)]
    } else if custom[0].key == key {
        seq![text_entry(key, value)] + custom.drop_first()
    } else {
        seq![custom[0]] + with_text_field(custom.drop_first(), key, value)
    }
}

/// `labels` with `label` among them.
pub open spec fn with_label(labels: Seq<Seq<char>>, label: Seq<char>) -> Seq<Seq<char>> {
    if labels.contains(label) {
        labels
    } else {
        labels.push(label)
    }
}

/// Puts the text `value` under `key`.
pub fn set_text_field(custom: &mut Vec<CustomField>, key: &str, value: &str)
    ensures
        final(custom).deep_view() == with_text_field(old(custom).deep_view(), key@, value@),
{
    let ghost before = custom.deep_view();
    let mut i: usize = 0;
    proof {
        assert(before.take(0) + with_text_field(before.skip(0), key@, value@) =~= with_text_field(
            before,
            key@,
            value@,
        )) by {
            assert(before.skip(0) == before);
            assert(before.take(0) =~= Seq::<CustomFieldView>::empty());
        }
    }
    while i < custom.len()
        invariant
            i <= custom.len(),
            custom.deep_view() == before,
            before == old(custom).deep_view(),
            with_text_field(before, key@, value@) == before.take(i as int) + with_text_field(
                before.skip(i as int),
                key@,
                value@,
            ),
        decreases custom.len() - i,
    {
        let ghost rest = before.skip(i as int);
        proof {
            assert(rest[0] == custom@[i as int]@);
            assert(rest.drop_first() =~= before.skip(i + 1));
        }
        if same_text(custom[i].key.as_str(), key) {
            custom.set(i, CustomField { key: owned(key), value: CustomValue::Text(owned(value)) });
            proof {
                assert(custom.deep_view() =~= before.take(i as int) + (seq![
                    text_entry(key@, value@),
                ] + before.skip(i + 1)));
            }
            return ;
        }
        proof {
            assert(before.take(i as int) + (seq![rest[0]] + with_text_field(
                before.skip(i + 1),
                key@,
                value@,
            )) =~= before.take(i + 1) + with_text_field(before.skip(i + 1), key@, value@));
        }
        i += 1;
    }
    custom.push(CustomField { key: owned(key), value: CustomValue::Text(owned(value)) });
    proof {
        assert(before.skip(before.len() as int) =~= Seq::<CustomFieldView>::empty());
        assert(before.take(before.len() as int) == before);
        assert(custom.deep_view() =~= before + seq![text_entry(key@, value@)]);
    }
}

/// Puts `label` among `labels` where it is missing.
pub fn ensure_label(labels: &mut Vec<String>, label: &str)
    ensures
        final(labels).deep_view() == with_label(old(labels).deep_view(), label@),
{
    if !contains_text(labels, label) {
        let ghost before = labels.deep_view();
        labels.push(owned(label));
        proof {
            assert(labels.deep_view() =~= before.push(label@));
        }
    }
}

/// Whether `custom` holds the text `value` under `key`.
pub open spec fn holds_text(custom: Seq<CustomFieldView>, key: Seq<char>, value: Seq<char>) -> bool {
    custom_value(custom, key) == Some(CustomValueView::Text(value))
}

/// Executable form of [`holds_text`].
pub fn has_text_field(custom: &Vec<CustomField>, key: &str, value: &str) -> (out: bool)
    ensures
        out == holds_text(custom.deep_view(), key@, value@),
{
    match find_custom(custom, key) {
        Some(CustomValue::Text(text)) => same_text(text.as_str(), value),
        _ => false,
    }
}

/// Whether the task of a file has fallen behind what the feed says of it:
/// its epic, its priority, its file or category, or one of its labels.
pub open spec fn task_is_stale(
    issue: IssueView,
    epic_id: Seq<char>,
    priority: i32,
    target_file: Seq<char>,
    category: Seq<char>,
) -> bool {
    ||| issue.parent != Some(epic_id)
    ||| issue.priority != priority
    ||| !holds_text(issue.custom, "snyk_target_file"@, target_file)
    ||| !holds_text(issue.custom, "snyk_category"@, category)
    ||| !issue.labels.contains("snyk"@)
    ||| !issue.labels.contains("security"@)
}

/// The task of a file brought up to what the feed says of it. An issue that
/// is no task, or a task that has not fallen behind, stays as it is.
pub open spec fn refreshed_task(
    issue: IssueView,
    epic_id: Seq<char>,
    priority: i32,
    target_file: Seq<char>,
    category: Seq<char>,
    now: Timestamp,
) -> IssueView {
    if issue.issue_type == "task"@ && task_is_stale(
        issue,
        epic_id,
        priority,
        target_file,
        category,
    ) {
        IssueView {
            parent: Some(epic_id),
            priority,
            custom: with_text_field(
                with_text_field(issue.custom, "snyk_target_file"@, target_file),
                "snyk_category"@,
                category,
            ),
            labels: with_label(with_label(issue.labels, "snyk"@), "security"@),
            updated_at: now,
            ..issue
        }
    } else {
        issue
    }
}

/// Brings the task of a file up to what the feed says of it, and says
/// whether anything changed.
pub fn refresh_file_task(
    issue: IssueData,
    epic_id: &str,
    priority: i32,
    target_file: &str,
    category: &str,
    now: Timestamp,
) -> (out: (IssueData, bool))
    ensures
        out.0@ == refreshed_task(issue@, epic_id@, priority, target_file@, category@, now),
        out.1 == (issue@.issue_type == "task"@ && task_is_stale(
            issue@,
            epic_id@,
            priority,
            target_file@,
            category@,
        )),
{
    if !same_text(issue.issue_type.as_str(), "task") {
        return (issue, false);
    }
    let same_parent = match &issue.parent {
        Some(parent) => same_text(parent.as_str(), epic_id),
        None => false,
    };
    let stale = !same_parent || issue.priority != priority || !has_text_field(
        &issue.custom,
        "snyk_target_file",
        target_file,
    ) || !has_text_field(&issue.custom, "snyk_category", category) || !contains_text(
        &issue.labels,
        "snyk",
    ) || !contains_text(&issue.labels, "security");
    if !stale {
        return (issue, false);
    }
    let mut updated = issue;
    updated.parent = Some(owned(epic_id));
    updated.priority = priority;
    set_text_field(&mut updated.custom, "snyk_target_file", target_file);
    set_text_field(&mut updated.custom, "snyk_category", category);
    ensure_label(&mut updated.labels, "snyk");
    ensure_label(&mut updated.labels, "security");
    updated.updated_at = now;
    (updated, true)
}

/// The epic of a category with the priority that the project asks for. An
/// epic that has it already stays as it is.
pub open spec fn reprioritized(issue: IssueView, priority: i32, now: Timestamp) -> IssueView {
    if issue.priority != priority {
        IssueView { priority, updated_at: now, ..issue }
    } else {
        issue
    }
}

/// Gives an epic the priority that the project asks for, and says whether
/// anything changed.
pub fn refresh_epic_priority(issue: IssueData, priority: i32, now: Timestamp) -> (out: (
    IssueData,
    bool,
))
    ensures
        out.0@ == reprioritized(issue@, priority, now),
        out.1 == (issue@.priority != priority),
{
    if issue.priority == priority {
        return (issue, false);
    }
    let mut updated = issue;
    updated.priority = priority;
    updated.updated_at = now;
    (updated, true)
}

/// `text` without every `.git` at its end.
pub open spec fn without_git_suffix(text: Seq<char>) -> Seq<char>
    decreases text.len(),
{
    if ends_with(text, ".git"@) && text.len() >= 4 {
        without_git_suffix(text.take(text.len() - 4))
    } else {
        text
    }
}

/// The repository that the address of a remote names, as `owner/name`: what
/// follows `https://github.com/` or `git@github.com:`, without `.git` at its
/// end. White space around the address is of no account; another address
/// names no repository.
pub open spec fn slug_of(address: Seq<char>) -> Option<Seq<char>> {
    let url = trim(address);
    if starts_with(url, "https://github.com/"@) {
        Some(without_git_suffix(url.skip("https://github.com/"@.len() as int)))
    } else if starts_with(url, "git@github.com:"@) {
        Some(without_git_suffix(url.skip("git@github.com:"@.len() as int)))
    } else {
        None
    }
}

/// Cuts every `.git` off the end of a text.
fn strip_git_suffix(text: Vec<char>) -> (out: Vec<char>)
    ensures
        out@ == without_git_suffix(text@),
{
    let suffix = chars_of(".git");
    proof {
        reveal_strlit(".git");
    }
    let mut rest = text;
    while rest.len() >= 4 && ends_with_chars(&rest, &suffix)
        invariant
            suffix@ == ".git"@,
            ".git"@.len() == 4,
            without_git_suffix(rest@) == without_git_suffix(text@),
        decreases rest.len(),
    {
        let shorter = slice_of(&rest, 0, rest.len() - 4);
        proof {
            assert(rest@.subrange(0, rest.len() - 4) == rest@.take(rest.len() - 4));
        }
        rest = shorter;
    }
    rest
}

/// Reads the repository off the address of a remote.
pub fn repo_slug(address: &str) -> (out: Option<String>)
    ensures
        option_text(out) == slug_of(address@),
{
    let url = trim_chars(&chars_of(address));
    let web = chars_of("https://github.com/");
    let shell = chars_of("git@github.com:");
    if starts_with_chars(&url, &web) {
        let rest = slice_of(&url, web.len(), url.len());
        proof {
            assert(url@.subrange(web.len() as int, url.len() as int) == url@.skip(
                web.len() as int,
            ));
        }
        Some(string_of(&strip_git_suffix(rest)))
    } else if starts_with_chars(&url, &shell) {
        let rest = slice_of(&url, shell.len(), url.len());
        proof {
            assert(url@.subrange(shell.len() as int, url.len() as int) == url@.skip(
                shell.len() as int,
            ));
        }
        Some(string_of(&strip_git_suffix(rest)))
    } else {
        None
    }
}

/// The number of characters of an identifier that a report shows: up to the
/// sixth behind the first hyphen, or six where there is no hyphen.
pub open spec fn short_length(identifier: Seq<char>) -> int {
    let hyphen = first_index_of(identifier, '-');
    let wanted = if 0 <= hyphen < identifier.len() {
        hyphen + 7
    } else {
        6
    };
    if wanted < identifier.len() {
        wanted
    } else {
        identifier.len() as int
    }
}

/// The short form of an identifier that a report shows.
pub fn short_key(identifier: &str) -> (out: String)
    ensures
        out@ == identifier@.take(short_length(identifier@)),
{
    let text = chars_of(identifier);
    let mut hyphen: usize = 0;
    while hyphen < text.len() && text[hyphen] != '-'
        invariant
            hyphen <= text.len(),
            forall|j: int| 0 <= j < hyphen ==> #[trigger] text@[j] != '-',
        decreases text.len() - hyphen,
    {
        hyphen += 1;
    }
    proof {
        lemma_first_index_of(text@, '-', hyphen as int);
    }
    let wanted: usize = if hyphen < text.len() {
        if text.len() - hyphen > 7 {
            hyphen + 7
        } else {
            text.len()
        }
    } else if text.len() > 6 {
        6
    } else {
        text.len()
    };
    let head = slice_of(&text, 0, wanted);
    proof {
        assert(text@.subrange(0, wanted as int) == text@.take(wanted as int));
    }
    string_of(&head)
}

/// `text` with spaces behind it up to `width` characters.
pub open spec fn padded(text: Seq<char>, width: nat) -> Seq<char> {
    if text.len() >= width {
        text
    } else {
        text + Seq::new((width - text.len()) as nat, |i: int| ' ')
    }
}

/// Appends `text` with spaces behind it up to `width` characters.
fn push_padded(out: &mut Vec<char>, text: &str, width: usize)
    ensures
        final(out)@ == old(out)@ + padded(text@, width as nat),
{
    let given = chars_of(text);
    let ghost start = out@;
    push_all(out, &given);
    let mut count: usize = given.len();
    proof {
        assert(Seq::new(0nat, |i: int| ' ') =~= Seq::<char>::empty());
        assert(out@ =~= start + given@ + Seq::new(0nat, |i: int| ' '));
    }
    while count < width
        invariant
            given.len() <= count,
            given.len() < width ==> count <= width,
            given.len() >= width ==> count == given.len(),
            out@ == start + given@ + Seq::new((count - given.len()) as nat, |i: int| ' '),
        decreases width - count,
    {
        out.push(' ');
        proof {
            assert(out@ =~= start + given@ + Seq::new((count + 1 - given.len()) as nat, |i: int| ' '));
        }
        count += 1;
    }
    proof {
        if given.len() >= width {
            assert(Seq::new(0nat, |i: int| ' ') =~= Seq::<char>::empty());
            assert(out@ =~= start + given@);
        } else {
            assert(count == width);
            assert(out@ =~= start + padded(text@, width as nat));
        }
    }
}

/// The line that reports what was done to an issue of the feed: the deed,
/// the kind of issue in a column of eight, the issue's key in a column of
/// fourteen, and its title in quotation marks.
pub open spec fn report_text(deed: Seq<char>, kind: Seq<char>, key: Seq<char>, title: Seq<char>) -> Seq<
    char,
> {
    deed + "  ["@ + padded(kind, 8) + "]  "@ + padded(key, 14) + "  \""@ + title + "\""@
}

/// Writes the line that reports what was done to an issue of the feed.
pub fn report_line(deed: &str, kind: &str, key: &str, title: &str) -> (out: String)
    ensures
        out@ == report_text(deed@, kind@, key@, title@),
{
    let mut line = chars_of(deed);
    push_str(&mut line, "  [");
    push_padded(&mut line, kind, 8);
    push_str(&mut line, "]  ");
    push_padded(&mut line, key, 14);
    push_str(&mut line, "  \"");
    push_str(&mut line, title);
    push_str(&mut line, "\"");
    string_of(&line)
}

/// The texts that a map of texts holds, by key.
pub open spec fn text_values(m: TextMap<String>) -> Map<Seq<char>, Seq<char>> {
    Map::new(|k: Seq<char>| m@.dom().contains(k), |k: Seq<char>| m@[k]@)
}

/// The issue that stands for each finding: from the key of the finding,
/// which an issue carries as the text of its field `snyk_key`, to the
/// identifier of the issue. Of several issues for one finding the last counts.
pub open spec fn key_index(issues: Seq<IssueView>) -> Map<Seq<char>, Seq<char>>
    decreases issues.len(),
{
    if issues.len() == 0 {
        Map::empty()
    } else {
        match custom_value(issues.last().custom, "snyk_key"@) {
            Some(CustomValueView::Text(key)) => key_index(issues.drop_last()).insert(
                key,
                issues.last().identifier,
            ),
            _ => key_index(issues.drop_last()),
        }
    }
}

/// Finds the issue that stands for each finding.
pub fn build_snyk_key_index(issues: &Vec<IssueData>) -> (out: TextMap<String>)
    ensures
        text_values(out) == key_index(issues.deep_view()),
{
    let mut index: TextMap<String> = TextMap::new();
    let mut i: usize = 0;
    proof {
        assert(issues.deep_view().take(0) =~= Seq::<IssueView>::empty());
        assert(text_values(index) =~= Map::<Seq<char>, Seq<char>>::empty());
    }
    while i < issues.len()
        invariant
            i <= issues.len(),
            text_values(index) == key_index(issues.deep_view().take(i as int)),
        decreases issues.len() - i,
    {
        proof {
            let next = issues.deep_view().take(i + 1);
            assert(next.drop_last() == issues.deep_view().take(i as int));
            assert(next.last() == issues@[i as int]@);
        }
        match find_custom(&issues[i].custom, "snyk_key") {
            Some(CustomValue::Text(key)) => {
                let ghost before = text_values(index);
                index.insert(key.clone(), issues[i].identifier.clone());
                proof {
                    assert(text_values(index) =~= before.insert(key@, issues@[i as int]@.identifier));
                }
            },
            _ => {},
        }
        i += 1;
    }
    proof {
        assert(issues.deep_view().take(issues.len() as int) == issues.deep_view());
    }
    index
}

/// The category of the feed that an issue belongs to: the text of its
/// field `snyk_category`, or `dependency` where it has none.
pub open spec fn category_of(issue: IssueView) -> Seq<char> {
    match custom_value(issue.custom, "snyk_category"@) {
        Some(CustomValueView::Text(category)) => category,
        _ => "dependency"@,
    }
}

/// Whether an issue is the task of a file in a category.
pub open spec fn is_file_task(issue: IssueView, category: Seq<char>, target_file: Seq<char>) -> bool {
    issue.issue_type == "task"@ && holds_text(issue.custom, "snyk_target_file"@, target_file)
        && category_of(issue) == category
}

/// The task of a file in a category among `issues`: of several, the last.
pub fn find_file_task(issues: &Vec<IssueData>, category: &str, target_file: &str) -> (out: Option<
    String,
>)
    ensures
        match out {
            Some(id) => exists|at: int|
                0 <= at < issues.len() && is_file_task(
                    #[trigger] issues.deep_view()[at],
                    category@,
                    target_file@,
                ) && id@ == issues.deep_view()[at].identifier && forall|j: int|
                    at < j < issues.len() ==> !is_file_task(
                        #[trigger] issues.deep_view()[j],
                        category@,
                        target_file@,
                    ),
            None => forall|j: int|
                0 <= j < issues.len() ==> !is_file_task(
                    #[trigger] issues.deep_view()[j],
                    category@,
                    target_file@,
                ),
        },
{
    let mut i: usize = issues.len();
    while i > 0
        invariant
            i <= issues.len(),
            forall|j: int|
                i <= j < issues.len() ==> !is_file_task(
                    #[trigger] issues.deep_view()[j],
                    category@,
                    target_file@,
                ),
        decreases i,
    {
        i -= 1;
        let issue = &issues[i];
        proof {
            assert(issues.deep_view()[i as int] == issue@);
        }
        if same_text(issue.issue_type.as_str(), "task") && has_text_field(
            &issue.custom,
            "snyk_target_file",
            target_file,
        ) {
            let belongs = match find_custom(&issue.custom, "snyk_category") {
                Some(CustomValue::Text(text)) => same_text(text.as_str(), category),
                _ => same_text("dependency", category),
            };
            if belongs {
                return Some(issue.identifier.clone());
            }
        }
    }
    None
}

} // verus!
