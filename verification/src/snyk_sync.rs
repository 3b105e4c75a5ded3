//! Rules for issues taken over from a vulnerability feed.

use crate::decimal::{decimal_digits, format_decimal};
use crate::lines::{lines, rows, split_lines};
use crate::models::{option_text, IssueData, IssueView, Timestamp};
use crate::text::{
    chars_of, contains_text, push_all, push_str, same_chars_ignoring_case, same_ignoring_case,
    same_text, string_of,
};
use vstd::prelude::*;

verus! {

/// Result of a pull from the feed.
#[derive(Debug, Clone, Copy)]
pub struct SnykPullResult {
    pub pulled: usize,
    pub updated: usize,
    pub skipped: usize,
}

/// The priority that a severity maps to: critical 0, high 1, medium 2, and
/// everything else 3. The case of letters is of no account.
pub open spec fn priority_of_severity(severity: Seq<char>) -> i32 {
    if same_ignoring_case(severity, "critical"@) {
        0
    } else if same_ignoring_case(severity, "high"@) {
        1
    } else if same_ignoring_case(severity, "medium"@) {
        2
    } else {
        3
    }
}

/// Map a severity to a priority.
pub fn severity_to_priority(severity: &str) -> (out: i32)
    ensures
        out == priority_of_severity(severity@),
{
    let word = chars_of(severity);
    if same_chars_ignoring_case(&word, &chars_of("critical")) {
        0
    } else if same_chars_ignoring_case(&word, &chars_of("high")) {
        1
    } else if same_chars_ignoring_case(&word, &chars_of("medium")) {
        2
    } else {
        3
    }
}

/// The number of lines shown before and after the lines in question.
pub const SNIPPET_CONTEXT: i64 = 2;

/// The most lines that a snippet holds.
pub const MAX_SNIPPET_LINES: i64 = 25;

/// The first line of the snippet for a finding that starts at line `start`.
pub open spec fn snippet_first(start: int) -> int {
    if start - SNIPPET_CONTEXT < 1 {
        1
    } else {
        start - SNIPPET_CONTEXT
    }
}

/// The last line of the snippet for a finding from line `start` to line
/// `end` in a file of `total` lines.
pub open spec fn snippet_last(start: int, end: int, total: int) -> int {
    let wide = if end + SNIPPET_CONTEXT > total {
        total
    } else {
        end + SNIPPET_CONTEXT
    };
    if wide - snippet_first(start) + 1 > MAX_SNIPPET_LINES {
        if snippet_first(start) + MAX_SNIPPET_LINES - 1 > total {
            total
        } else {
            snippet_first(start) + MAX_SNIPPET_LINES - 1
        }
    } else {
        wide
    }
}

/// A line number, set to the right in a column of four.
pub open spec fn numbered(n: nat) -> Seq<char> {
    let digits = decimal_digits(n);
    if digits.len() >= 4 {
        digits
    } else {
        Seq::new((4 - digits.len()) as nat, |i: int| ' ') + digits
    }
}

/// One line of a snippet's body.
pub open spec fn snippet_line(number: nat, line: Seq<char>) -> Seq<char> {
    numbered(number) + " | "@ + line + seq!['\n']
}

/// The body of a snippet: the lines `first..=last` of the file, each with
/// its number.
pub open spec fn snippet_body(file_lines: Seq<Seq<char>>, first: int, last: int) -> Seq<char>
    decreases last - first + 1,
{
    if first > last || first < 1 {
        Seq::empty()
    } else {
        snippet_body(file_lines, first, last - 1) + (if last <= file_lines.len() {
            snippet_line(last as nat, file_lines[last - 1])
        } else {
            Seq::empty()
        })
    }
}

/// The snippet for a finding in `file`, whose content is `content`: `None`
/// where the finding names no line, names a line before the first, or the
/// file is empty.
pub open spec fn snippet_of(content: Seq<char>, file: Seq<char>, start_line: Option<i64>, end_line: Option<i64>) -> Option<
    Seq<char>,
> {
    match start_line {
        None => None,
        Some(start) => {
            let end = match end_line {
                Some(e) => e,
                None => start,
            };
            let total = lines(content).len() as int;
            if start <= 0 || end <= 0 || total == 0 {
                None
            } else {
                let first = snippet_first(start as int);
                let last = snippet_last(start as int, end as int, total);
                Some(
                    "### Snippet ("@ + file + ":"@ + decimal_digits(first as nat) + "-"@
                        + decimal_digits(last as nat) + ")\n```\n"@ + snippet_body(
                        lines(content),
                        first,
                        last,
                    ) + "```\n\n"@,
                )
            }
        },
    }
}

/// Appends a line number, set to the right in a column of four.
fn push_numbered(out: &mut Vec<char>, n: u64)
    ensures
        final(out)@ == old(out)@ + numbered(n as nat),
{
    let digits = format_decimal(n);
    let ghost start = out@;
    let mut pad: usize = 0;
    let width: usize = if digits.len() < 4 {
        4 - digits.len()
    } else {
        0
    };
    while pad < width
        invariant
            pad <= width,
            out@ == start + Seq::new(pad as nat, |i: int| ' '),
        decreases width - pad,
    {
        out.push(' ');
        proof {
            assert(out@ =~= start + Seq::new((pad + 1) as nat, |i: int| ' '));
        }
        pad += 1;
    }
    push_all(out, &digits);
    proof {
        if digits.len() >= 4 {
            assert(Seq::new(0nat, |i: int| ' ') =~= Seq::<char>::empty());
        }
        assert(out@ =~= start + numbered(n as nat));
    }
}

/// Builds the snippet that shows a finding in its file.
pub fn build_snippet(content: &str, file: &str, start_line: Option<i64>, end_line: Option<i64>) -> (out:
    Option<String>)
    ensures
        crate::models::option_text(out) == snippet_of(content@, file@, start_line, end_line),
{
    let start = match start_line {
        Some(start) => start,
        None => {
            return None;
        },
    };
    let end = match end_line {
        Some(end) => end,
        None => start,
    };
    if start <= 0 || end <= 0 {
        return None;
    }
    let file_lines = split_lines(&chars_of(content));
    if file_lines.len() == 0 {
        return None;
    }
    let total: u64 = file_lines.len() as u64;
    let begin: u64 = start as u64;
    let finish: u64 = end as u64;
    let first: u64 = if begin < 3 {
        1
    } else {
        begin - 2
    };
    let wide: u64 = if finish >= total || total - finish < 2 {
        total
    } else {
        finish + 2
    };
    let last: u64 = if wide >= first && wide - first + 1 > 25 {
        if total - first < 24 {
            total
        } else {
            first + 24
        }
    } else {
        wide
    };
    proof {
        assert(first == snippet_first(start as int));
        assert(last == snippet_last(start as int, end as int, total as int));
    }
    let mut text = chars_of("### Snippet (");
    push_str(&mut text, file);
    push_str(&mut text, ":");
    push_all(&mut text, &format_decimal(first));
    push_str(&mut text, "-");
    push_all(&mut text, &format_decimal(last));
    push_str(&mut text, ")\n```\n");
    let ghost head = text@;
    let mut number: u128 = first as u128;
    proof {
        assert(head + snippet_body(rows(file_lines@), first as int, first - 1) == head);
    }
    while number <= last as u128
        invariant
            first >= 1,
            first <= number,
            last <= total,
            total == file_lines.len(),
            number <= last + 1 || number == first,
            text@ == head + snippet_body(rows(file_lines@), first as int, number - 1),
        decreases last + 1 - number,
    {
        let ghost before = text@;
        push_numbered(&mut text, number as u64);
        push_str(&mut text, " | ");
        push_all(&mut text, &file_lines[(number - 1) as usize]);
        text.push('\n');
        proof {
            assert(rows(file_lines@)[number - 1] == file_lines@[number - 1]@);
            assert(text@ =~= before + snippet_line(number as nat, file_lines@[number - 1]@));
        }
        number += 1;
    }
    proof {
        if first > last {
            assert(number == first);
            assert(snippet_body(rows(file_lines@), first as int, last as int) =~= Seq::<
                char,
            >::empty());
            assert(snippet_body(rows(file_lines@), first as int, first - 1) =~= Seq::<
                char,
            >::empty());
        }
    }
    push_str(&mut text, "```\n\n");
    Some(string_of(&text))
}

/// The title of the initiative under which the feed's epics stand.
pub const SNYK_INITIATIVE_TITLE: &'static str = "Snyk Vulnerability Remediation";

/// The title of the epic for vulnerable dependencies.
pub const SNYK_DEP_EPIC_TITLE: &'static str = "Snyk Dependency Vulnerabilities";

/// The title of the epic for vulnerable code.
pub const SNYK_CODE_EPIC_TITLE: &'static str = "Snyk Code Vulnerabilities";

/// Whether `a` is later than `b`.
pub open spec fn later(a: Timestamp, b: Timestamp) -> bool {
    a.seconds > b.seconds || (a.seconds == b.seconds && a.nanos > b.nanos)
}

/// Whether an issue is one that the feed made: it has the given type and
/// title, carries the label `snyk`, and stands under `parent` where one is
/// asked for.
pub open spec fn is_feed_issue(
    issue: IssueView,
    issue_type: Seq<char>,
    title: Seq<char>,
    parent: Option<Seq<char>>,
) -> bool {
    &&& issue.issue_type == issue_type
    &&& issue.title == title
    &&& issue.labels.contains("snyk"@)
    &&& parent is Some ==> issue.parent == parent
}

/// Whether the issue at place `at` is the one that is taken among the
/// feed's issues of a kind: the one updated last, and of several updated
/// last the first.
pub open spec fn is_latest_feed_issue(
    issues: Seq<IssueView>,
    at: int,
    issue_type: Seq<char>,
    title: Seq<char>,
    parent: Option<Seq<char>>,
) -> bool {
    &&& 0 <= at < issues.len()
    &&& is_feed_issue(issues[at], issue_type, title, parent)
    &&& forall|j: int|
        0 <= j < at && is_feed_issue(#[trigger] issues[j], issue_type, title, parent) ==> later(
            issues[at].updated_at,
            issues[j].updated_at,
        )
    &&& forall|j: int|
        at < j < issues.len() && is_feed_issue(#[trigger] issues[j], issue_type, title, parent)
            ==> !later(issues[j].updated_at, issues[at].updated_at)
}

/// Executable form of [`is_feed_issue`].
fn feed_issue(issue: &IssueData, issue_type: &str, title: &str, parent: Option<&str>) -> (out: bool)
    ensures
        out == is_feed_issue(
            issue@,
            issue_type@,
            title@,
            match parent {
                Some(p) => Some(p@),
                None => None,
            },
        ),
{
    if !same_text(issue.issue_type.as_str(), issue_type) {
        return false;
    }
    if !same_text(issue.title.as_str(), title) {
        return false;
    }
    if !contains_text(&issue.labels, "snyk") {
        return false;
    }
    match parent {
        None => true,
        Some(wanted) => match &issue.parent {
            Some(actual) => same_text(actual.as_str(), wanted),
            None => false,
        },
    }
}

/// The identifier of the feed's issue of a kind that was updated last.
fn latest_feed_issue(issues: &Vec<IssueData>, issue_type: &str, title: &str, parent: Option<&str>) -> (out:
    Option<String>)
    ensures
        match out {
            Some(id) => exists|at: int|
                is_latest_feed_issue(
                    issues.deep_view(),
                    at,
                    issue_type@,
                    title@,
                    match parent {
                        Some(p) => Some(p@),
                        None => None,
                    },
                ) && id@ == (#[trigger] issues.deep_view()[at]).identifier,
            None => forall|j: int|
                0 <= j < issues.len() ==> !is_feed_issue(
                    #[trigger] issues.deep_view()[j],
                    issue_type@,
                    title@,
                    match parent {
                        Some(p) => Some(p@),
                        None => None,
                    },
                ),
        },
{
    let ghost wanted: Option<Seq<char>> = match parent {
        Some(p) => Some(p@),
        None => None,
    };
    let ghost all = issues.deep_view();
    let mut best: Option<usize> = None;
    let mut i: usize = 0;
    while i < issues.len()
        invariant
            i <= issues.len(),
            all == issues.deep_view(),
            wanted == (match parent {
                Some(p) => Some(p@),
                None => None,
            }),
            match best {
                None => forall|j: int|
                    0 <= j < i ==> !is_feed_issue(#[trigger] all[j], issue_type@, title@, wanted),
                Some(b) => {
                    &&& b < i
                    &&& is_feed_issue(all[b as int], issue_type@, title@, wanted)
                    &&& forall|j: int|
                        0 <= j < b && is_feed_issue(#[trigger] all[j], issue_type@, title@, wanted)
                            ==> later(all[b as int].updated_at, all[j].updated_at)
                    &&& forall|j: int|
                        b < j < i && is_feed_issue(#[trigger] all[j], issue_type@, title@, wanted)
                            ==> !later(all[j].updated_at, all[b as int].updated_at)
                },
            },
        decreases issues.len() - i,
    {
        proof {
            assert(all[i as int] == issues@[i as int]@);
        }
        if feed_issue(&issues[i], issue_type, title, parent) {
            let takes = match best {
                None => true,
                Some(b) => {
                    let new = issues[i].updated_at;
                    let old = issues[b].updated_at;
                    proof {
                        assert(all[b as int] == issues@[b as int]@);
                    }
                    new.seconds > old.seconds || (new.seconds == old.seconds && new.nanos
                        > old.nanos)
                },
            };
            if takes {
                best = Some(i);
            }
        }
        i += 1;
    }
    match best {
        None => None,
        Some(b) => {
            proof {
                assert(all[b as int] == issues@[b as int]@);
                assert(is_latest_feed_issue(all, b as int, issue_type@, title@, wanted));
            }
            Some(issues[b].identifier.clone())
        },
    }
}

/// The initiative of the feed among `issues`, if there is one: of several,
/// the one updated last.
pub fn find_existing_snyk_initiative(issues: &Vec<IssueData>) -> (out: Option<String>)
    ensures
        match out {
            Some(id) => exists|at: int|
                is_latest_feed_issue(
                    issues.deep_view(),
                    at,
                    "initiative"@,
                    SNYK_INITIATIVE_TITLE@,
                    None,
                ) && id@ == (#[trigger] issues.deep_view()[at]).identifier,
            None => forall|j: int|
                0 <= j < issues.len() ==> !is_feed_issue(
                    #[trigger] issues.deep_view()[j],
                    "initiative"@,
                    SNYK_INITIATIVE_TITLE@,
                    None,
                ),
        },
{
    latest_feed_issue(issues, "initiative", SNYK_INITIATIVE_TITLE, None)
}

/// The epic of the feed with the given title under the given initiative
/// among `issues`, if there is one: of several, the one updated last.
pub fn find_existing_snyk_epic(issues: &Vec<IssueData>, title: &str, parent_initiative: &str) -> (out:
    Option<String>)
    ensures
        match out {
            Some(id) => exists|at: int|
                is_latest_feed_issue(
                    issues.deep_view(),
                    at,
                    "epic"@,
                    title@,
                    Some(parent_initiative@),
                ) && id@ == (#[trigger] issues.deep_view()[at]).identifier,
            None => forall|j: int|
                0 <= j < issues.len() ==> !is_feed_issue(
                    #[trigger] issues.deep_view()[j],
                    "epic"@,
                    title@,
                    Some(parent_initiative@),
                ),
        },
{
    latest_feed_issue(issues, "epic", title, Some(parent_initiative))
}

} // verus!
