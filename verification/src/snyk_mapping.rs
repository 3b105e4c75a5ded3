//! The issue that a finding of the vulnerability feed becomes.

use crate::decimal::{format_integer, signed_digits};
use crate::models::{
    option_text, or_text, CustomField, CustomFieldView, CustomValue, CustomValueView, IssueData,
    IssueView, Timestamp,
};
use crate::snyk_sync::{build_snippet, priority_of_severity, severity_to_priority, snippet_of};
use crate::text::{chars_of, join, join_strings, owned, push_all, push_str, same_text, string_of};
use vstd::prelude::*;

verus! {

/// The place of a finding in a source file.
#[derive(Debug)]
pub struct SourceLocation {
    pub file: String,
    pub line: Option<i64>,
    pub column: Option<i64>,
    pub end_line: Option<i64>,
    pub end_column: Option<i64>,
}

/// Mathematical content of [`SourceLocation`].
pub struct SourceLocationView {
    pub file: Seq<char>,
    pub line: Option<i64>,
    pub column: Option<i64>,
    pub end_line: Option<i64>,
    pub end_column: Option<i64>,
}

impl View for SourceLocation {
    type V = SourceLocationView;

    open spec fn view(&self) -> SourceLocationView {
        SourceLocationView {
            file: self.file@,
            line: self.line,
            column: self.column,
            end_line: self.end_line,
            end_column: self.end_column,
        }
    }
}

/// One entry of a finding's classes: a name, or a source with an
/// identifier, either of which may be missing.
#[derive(Debug)]
pub enum ClassEntry {
    Name(String),
    Tagged { source: Option<String>, id: Option<String> },
}

/// Mathematical content of [`ClassEntry`].
pub enum ClassEntryView {
    Name(Seq<char>),
    Tagged { source: Option<Seq<char>>, id: Option<Seq<char>> },
}

impl View for ClassEntry {
    type V = ClassEntryView;

    open spec fn view(&self) -> ClassEntryView {
        match self {
            ClassEntry::Name(name) => ClassEntryView::Name(name@),
            ClassEntry::Tagged { source, id } => ClassEntryView::Tagged {
                source: option_text(*source),
                id: option_text(*id),
            },
        }
    }
}

impl DeepView for ClassEntry {
    type V = ClassEntryView;

    open spec fn deep_view(&self) -> ClassEntryView {
        self@
    }
}

/// One known problem behind a finding, as a catalogue names it.
#[derive(Debug)]
pub struct Problem {
    pub source: Option<String>,
    pub id: Option<String>,
}

/// Mathematical content of [`Problem`].
pub struct ProblemView {
    pub source: Option<Seq<char>>,
    pub id: Option<Seq<char>>,
}

impl View for Problem {
    type V = ProblemView;

    open spec fn view(&self) -> ProblemView {
        ProblemView { source: option_text(self.source), id: option_text(self.id) }
    }
}

impl DeepView for Problem {
    type V = ProblemView;

    open spec fn deep_view(&self) -> ProblemView {
        self@
    }
}

/// The names that a finding's classes give: a name as it is, a source with
/// an identifier as `source-id`, and nothing for an entry that lacks either.
pub open spec fn class_names(entries: Seq<ClassEntryView>) -> Seq<Seq<char>>
    decreases entries.len(),
{
    if entries.len() == 0 {
        Seq::empty()
    } else {
        match entries.last() {
            ClassEntryView::Name(name) => class_names(entries.drop_last()).push(name),
            ClassEntryView::Tagged { source: Some(source), id: Some(id) } => class_names(
                entries.drop_last(),
            ).push(source + "-"@ + id),
            _ => class_names(entries.drop_last()),
        }
    }
}

/// Names the classes of a finding.
pub fn extract_classes(entries: &Vec<ClassEntry>) -> (out: Vec<String>)
    ensures
        out.deep_view() == class_names(entries.deep_view()),
{
    let mut out: Vec<String> = Vec::new();
    let mut i: usize = 0;
    proof {
        assert(entries.deep_view().take(0) =~= Seq::<ClassEntryView>::empty());
        assert(out.deep_view() =~= Seq::<Seq<char>>::empty());
    }
    while i < entries.len()
        invariant
            i <= entries.len(),
            out.deep_view() == class_names(entries.deep_view().take(i as int)),
        decreases entries.len() - i,
    {
        proof {
            let next = entries.deep_view().take(i + 1);
            assert(next.drop_last() == entries.deep_view().take(i as int));
            assert(next.last() == entries@[i as int]@);
        }
        let ghost before = out.deep_view();
        match &entries[i] {
            ClassEntry::Name(name) => {
                out.push(name.clone());
                proof {
                    assert(out.deep_view() =~= before.push(name@));
                }
            },
            ClassEntry::Tagged { source: Some(source), id: Some(id) } => {
                let mut text = chars_of(source.as_str());
                push_str(&mut text, "-");
                push_str(&mut text, id.as_str());
                let name = string_of(&text);
                out.push(name);
                proof {
                    assert(out.deep_view() =~= before.push(source@ + "-"@ + id@));
                }
            },
            _ => {},
        }
        i += 1;
    }
    proof {
        assert(entries.deep_view().take(entries.len() as int) == entries.deep_view());
    }
    out
}

/// The identifiers of the problems that the catalogue `NVD` names.
pub open spec fn catalogued(problems: Seq<ProblemView>) -> Seq<Seq<char>>
    decreases problems.len(),
{
    if problems.len() == 0 {
        Seq::empty()
    } else {
        match problems.last() {
            ProblemView { source: Some(source), id: Some(id) } if source == "NVD"@ => catalogued(
                problems.drop_last(),
            ).push(id),
            _ => catalogued(problems.drop_last()),
        }
    }
}

/// Executable form of [`catalogued`].
pub fn catalogued_problems(problems: &Vec<Problem>) -> (out: Vec<String>)
    ensures
        out.deep_view() == catalogued(problems.deep_view()),
{
    let mut out: Vec<String> = Vec::new();
    let mut i: usize = 0;
    proof {
        assert(problems.deep_view().take(0) =~= Seq::<ProblemView>::empty());
        assert(out.deep_view() =~= Seq::<Seq<char>>::empty());
    }
    while i < problems.len()
        invariant
            i <= problems.len(),
            out.deep_view() == catalogued(problems.deep_view().take(i as int)),
        decreases problems.len() - i,
    {
        proof {
            let next = problems.deep_view().take(i + 1);
            assert(next.drop_last() == problems.deep_view().take(i as int));
            assert(next.last() == problems@[i as int]@);
        }
        let ghost before = out.deep_view();
        match (&problems[i].source, &problems[i].id) {
            (Some(source), Some(id)) => {
                if same_text(source.as_str(), "NVD") {
                    out.push(id.clone());
                    proof {
                        assert(out.deep_view() =~= before.push(id@));
                    }
                }
            },
            _ => {},
        }
        i += 1;
    }
    proof {
        assert(problems.deep_view().take(problems.len() as int) == problems.deep_view());
    }
    out
}

/// A finding of the feed, as far as the rules read it. A text that the feed
/// left out, or gave as something else than text, is `None`.
#[derive(Debug)]
pub struct SnykFinding {
    pub issue_type: Option<String>,
    pub key: Option<String>,
    pub severity: Option<String>,
    pub title: Option<String>,
    pub description: Option<String>,
    pub classes: Vec<ClassEntry>,
    pub location: Option<SourceLocation>,
    pub package_name: Option<String>,
    pub package_version: Option<String>,
    pub problems: Vec<Problem>,
    pub fixable: bool,
    pub upgradeable: bool,
    pub pinnable: bool,
}

/// Mathematical content of [`SnykFinding`].
pub struct FindingView {
    pub issue_type: Option<Seq<char>>,
    pub key: Option<Seq<char>>,
    pub severity: Option<Seq<char>>,
    pub title: Option<Seq<char>>,
    pub description: Option<Seq<char>>,
    pub classes: Seq<ClassEntryView>,
    pub location: Option<SourceLocationView>,
    pub package_name: Option<Seq<char>>,
    pub package_version: Option<Seq<char>>,
    pub problems: Seq<ProblemView>,
    pub fixable: bool,
    pub upgradeable: bool,
    pub pinnable: bool,
}

impl View for SnykFinding {
    type V = FindingView;

    open spec fn view(&self) -> FindingView {
        FindingView {
            issue_type: option_text(self.issue_type),
            key: option_text(self.key),
            severity: option_text(self.severity),
            title: option_text(self.title),
            description: option_text(self.description),
            classes: self.classes.deep_view(),
            location: match self.location {
                Some(location) => Some(location@),
                None => None,
            },
            package_name: option_text(self.package_name),
            package_version: option_text(self.package_version),
            problems: self.problems.deep_view(),
            fixable: self.fixable,
            upgradeable: self.upgradeable,
            pinnable: self.pinnable,
        }
    }
}

/// What the feed's older interface adds to a finding. The score comes as it
/// is shown, with one digit behind the point.
#[derive(Debug)]
pub struct SnykEnrichment {
    pub title: Option<String>,
    pub fixed_in: Vec<String>,
    pub cvss_score: Option<String>,
    pub exploit_maturity: Option<String>,
    pub priority_score: Option<i64>,
    pub description: Option<String>,
}

/// Mathematical content of [`SnykEnrichment`].
pub struct EnrichmentView {
    pub title: Option<Seq<char>>,
    pub fixed_in: Seq<Seq<char>>,
    pub cvss_score: Option<Seq<char>>,
    pub exploit_maturity: Option<Seq<char>>,
    pub priority_score: Option<i64>,
    pub description: Option<Seq<char>>,
}

impl View for SnykEnrichment {
    type V = EnrichmentView;

    open spec fn view(&self) -> EnrichmentView {
        EnrichmentView {
            title: option_text(self.title),
            fixed_in: self.fixed_in.deep_view(),
            cvss_score: option_text(self.cvss_score),
            exploit_maturity: option_text(self.exploit_maturity),
            priority_score: self.priority_score,
            description: option_text(self.description),
        }
    }
}

/// The content of an optional enrichment.
pub open spec fn enrichment_view(v1: Option<&SnykEnrichment>) -> Option<EnrichmentView> {
    match v1 {
        Some(enrichment) => Some(enrichment@),
        None => None,
    }
}

/// Whether a finding is one in the project's own code.
pub open spec fn is_code_finding(finding: FindingView) -> bool {
    or_text(finding.issue_type, "package_vulnerability"@) == "code"@
}

/// The text of an optional field, or `fallback` in its place.
fn text_or<'a>(value: &'a Option<String>, fallback: &'a str) -> (out: &'a str)
    ensures
        out@ == or_text(option_text(*value), fallback@),
{
    match value {
        Some(text) => text.as_str(),
        None => fallback,
    }
}

/// Whether a text is empty.
fn is_empty(text: &str) -> (out: bool)
    ensures
        out == (text@.len() == 0),
{
    chars_of(text).len() == 0
}

/// The short title under which a finding is listed.
pub open spec fn listed_title(finding: FindingView) -> Seq<char> {
    if is_code_finding(finding) {
        "[Snyk Code] "@ + or_text(finding.title, "Snyk Code issue"@)
    } else if or_text(finding.package_name, Seq::empty()).len() == 0 {
        "[Snyk] "@ + or_text(finding.key, "unknown"@)
    } else {
        "[Snyk] "@ + or_text(finding.key, "unknown"@) + " in "@ + or_text(
            finding.package_name,
            Seq::empty(),
        )
    }
}

/// The key of a finding, empty where it has none.
pub fn vuln_key(finding: &SnykFinding) -> (out: String)
    ensures
        out@ == or_text(finding@.key, Seq::empty()),
{
    proof {
        reveal_strlit("");
    }
    owned(text_or(&finding.key, ""))
}

/// The short title under which a finding is listed.
pub fn vuln_title(finding: &SnykFinding) -> (out: String)
    ensures
        out@ == listed_title(finding@),
{
    if same_text(text_or(&finding.issue_type, "package_vulnerability"), "code") {
        let mut text = chars_of("[Snyk Code] ");
        push_str(&mut text, text_or(&finding.title, "Snyk Code issue"));
        return string_of(&text);
    }
    proof {
        reveal_strlit("");
    }
    let package = text_or(&finding.package_name, "");
    let mut text = chars_of("[Snyk] ");
    push_str(&mut text, text_or(&finding.key, "unknown"));
    if !is_empty(package) {
        push_str(&mut text, " in ");
        push_str(&mut text, package);
    }
    string_of(&text)
}

/// The line of a description that names the file of a finding.
pub open spec fn file_line(location: Option<SourceLocationView>) -> Seq<char> {
    match location {
        Some(place) => "**File:** `"@ + place.file + "`\n"@,
        None => Seq::empty(),
    }
}

/// The line of a description that names the place of a finding in its
/// file: the line, the column where it is known, and the end where both its
/// line and its column are known.
pub open spec fn position_line(location: Option<SourceLocationView>) -> Seq<char> {
    match location {
        Some(place) => match place.line {
            Some(line) => match place.column {
                Some(column) => match (place.end_line, place.end_column) {
                    (Some(end_line), Some(end_column)) => "**Location:** line "@ + signed_digits(
                        line as int,
                    ) + ", column "@ + signed_digits(column as int) + " to line "@ + signed_digits(
                        end_line as int,
                    ) + ", column "@ + signed_digits(end_column as int) + "\n"@,
                    _ => "**Location:** line "@ + signed_digits(line as int) + ", column "@
                        + signed_digits(column as int) + "\n"@,
                },
                None => "**Location:** line "@ + signed_digits(line as int) + "\n"@,
            },
            None => Seq::empty(),
        },
        None => Seq::empty(),
    }
}

/// Appends the two lines that name file and place of a finding.
fn push_location_lines(out: &mut Vec<char>, location: &Option<SourceLocation>)
    ensures
        final(out)@ == old(out)@ + file_line(
            match *location {
                Some(place) => Some(place@),
                None => None,
            },
        ) + position_line(
            match *location {
                Some(place) => Some(place@),
                None => None,
            },
        ),
{
    let place = match location {
        Some(place) => place,
        None => {
            proof {
                assert(out@ + Seq::<char>::empty() + Seq::<char>::empty() =~= out@);
            }
            return ;
        },
    };
    let ghost start = out@;
    push_str(out, "**File:** `");
    push_str(out, place.file.as_str());
    push_str(out, "`\n");
    let ghost named = out@;
    proof {
        assert(named =~= start + file_line(Some(place@)));
    }
    match place.line {
        None => {
            proof {
                assert(named + Seq::<char>::empty() =~= named);
            }
        },
        Some(line) => {
            push_str(out, "**Location:** line ");
            push_all(out, &format_integer(line));
            match place.column {
                None => {},
                Some(column) => {
                    push_str(out, ", column ");
                    push_all(out, &format_integer(column));
                    match (place.end_line, place.end_column) {
                        (Some(end_line), Some(end_column)) => {
                            push_str(out, " to line ");
                            push_all(out, &format_integer(end_line));
                            push_str(out, ", column ");
                            push_all(out, &format_integer(end_column));
                        },
                        _ => {},
                    }
                },
            }
            push_str(out, "\n");
            proof {
                assert(out@ =~= named + position_line(Some(place@)));
            }
        },
    }
}

/// One custom field that holds text.
pub open spec fn text_entry(key: Seq<char>, value: Seq<char>) -> CustomFieldView {
    CustomFieldView { key, value: CustomValueView::Text(value) }
}

/// The custom field that holds a number, where there is one.
pub open spec fn number_entry(key: Seq<char>, value: Option<i64>) -> Seq<CustomFieldView> {
    match value {
        Some(number) => seq![
            CustomFieldView { key, value: CustomValueView::Json(signed_digits(number as int)) },
        ],
        None => Seq::empty(),
    }
}

/// The place that goes into the custom fields: that of a finding in code.
pub open spec fn recorded_place(finding: FindingView) -> Option<SourceLocationView> {
    if is_code_finding(finding) {
        finding.location
    } else {
        None
    }
}

/// The custom fields of a place whose keys come before `snyk_key`.
pub open spec fn fields_before_key(place: Option<SourceLocationView>) -> Seq<CustomFieldView> {
    match place {
        Some(l) => number_entry("snyk_column"@, l.column) + number_entry(
            "snyk_end_column"@,
            l.end_column,
        ) + number_entry("snyk_end_line"@, l.end_line).push(text_entry("snyk_file"@, l.file)),
        None => Seq::empty(),
    }
}

/// The custom field of a place whose key comes after `snyk_key`.
pub open spec fn fields_after_key(place: Option<SourceLocationView>) -> Seq<CustomFieldView> {
    match place {
        Some(l) => number_entry("snyk_line"@, l.line),
        None => Seq::empty(),
    }
}

/// The custom fields of the issue that a finding becomes, in ascending
/// order of their keys: key, severity and type of the finding, and for a
/// finding in code with a known place its file and position.
pub open spec fn finding_fields(finding: FindingView) -> Seq<CustomFieldView> {
    (fields_before_key(recorded_place(finding)).push(
        text_entry("snyk_key"@, or_text(finding.key, Seq::empty())),
    ) + fields_after_key(recorded_place(finding))).push(
        text_entry("snyk_severity"@, or_text(finding.severity, "low"@)),
    ).push(text_entry("snyk_type"@, or_text(finding.issue_type, "package_vulnerability"@)))
}

/// Appends a custom field that holds text.
fn push_text_entry(out: &mut Vec<CustomField>, key: &str, value: &str)
    ensures
        final(out).deep_view() == old(out).deep_view().push(text_entry(key@, value@)),
{
    let ghost before = out.deep_view();
    out.push(CustomField { key: owned(key), value: CustomValue::Text(owned(value)) });
    proof {
        assert(out.deep_view() =~= before.push(text_entry(key@, value@)));
    }
}

/// Appends the custom field that holds a number, where there is one.
fn push_number_entry(out: &mut Vec<CustomField>, key: &str, value: Option<i64>)
    ensures
        final(out).deep_view() == old(out).deep_view() + number_entry(key@, value),
{
    let ghost before = out.deep_view();
    match value {
        Some(number) => {
            let digits = string_of(&format_integer(number));
            out.push(CustomField { key: owned(key), value: CustomValue::Json(digits) });
            proof {
                assert(out.deep_view() =~= before + number_entry(key@, value));
            }
        },
        None => {
            proof {
                assert(before + Seq::<CustomFieldView>::empty() =~= before);
            }
        },
    }
}

/// Builds the custom fields of the issue that a finding becomes.
pub fn custom_fields(finding: &SnykFinding) -> (out: Vec<CustomField>)
    ensures
        out.deep_view() == finding_fields(finding@),
{
    let code = same_text(text_or(&finding.issue_type, "package_vulnerability"), "code");
    let ghost place = recorded_place(finding@);
    let mut out: Vec<CustomField> = Vec::new();
    proof {
        reveal_strlit("");
        assert(out.deep_view() =~= Seq::<CustomFieldView>::empty());
    }
    if code {
        match &finding.location {
            Some(l) => {
                push_number_entry(&mut out, "snyk_column", l.column);
                push_number_entry(&mut out, "snyk_end_column", l.end_column);
                push_number_entry(&mut out, "snyk_end_line", l.end_line);
                push_text_entry(&mut out, "snyk_file", l.file.as_str());
                proof {
                    assert(place == Some(l@));
                    assert(out.deep_view() =~= fields_before_key(place));
                }
            },
            None => {},
        }
    }
    proof {
        assert(out.deep_view() =~= fields_before_key(place));
    }
    push_text_entry(&mut out, "snyk_key", text_or(&finding.key, ""));
    let ghost keyed = out.deep_view();
    if code {
        match &finding.location {
            Some(l) => {
                push_number_entry(&mut out, "snyk_line", l.line);
            },
            None => {
                proof {
                    assert(keyed + Seq::<CustomFieldView>::empty() =~= keyed);
                }
            },
        }
    } else {
        proof {
            assert(keyed + Seq::<CustomFieldView>::empty() =~= keyed);
        }
    }
    proof {
        assert(""@ =~= Seq::<char>::empty());
        assert(out.deep_view() == keyed + fields_after_key(place));
        assert(keyed == fields_before_key(place).push(
            text_entry("snyk_key"@, or_text(finding@.key, Seq::empty())),
        ));
    }
    push_text_entry(&mut out, "snyk_severity", text_or(&finding.severity, "low"));
    push_text_entry(
        &mut out,
        "snyk_type",
        text_or(&finding.issue_type, "package_vulnerability"),
    );
    out
}

/// The line of a description that names the classes of a finding.
pub open spec fn class_line(names: Seq<Seq<char>>) -> Seq<char> {
    if names.len() == 0 {
        ""@
    } else {
        "**Classes:** "@ + join(names, ", "@) + "\n"@
    }
}

/// The part of a description that shows the lines of a finding: the lines
/// from its first to its last, else its first line alone, else nothing.
/// `content` is what the file of the finding holds, where it could be read.
pub open spec fn snippet_block(place: Option<SourceLocationView>, content: Option<Seq<char>>) -> Seq<
    char,
> {
    match (place, content) {
        (Some(l), Some(text)) => match snippet_of(text, l.file, l.line, l.end_line) {
            Some(snippet) => snippet,
            None => match snippet_of(text, l.file, l.line, l.line) {
                Some(snippet) => snippet,
                None => ""@,
            },
        },
        _ => ""@,
    }
}

/// The part of a description that gives the details, where there are any.
pub open spec fn details_block(details: Seq<char>) -> Seq<char> {
    if details.len() == 0 {
        ""@
    } else {
        "### Details\n"@ + details + "\n\n"@
    }
}

/// The description of the issue that a finding in code becomes.
pub open spec fn code_description(
    finding: FindingView,
    target_file: Seq<char>,
    content: Option<Seq<char>>,
) -> Seq<char> {
    "## "@ + or_text(finding.title, or_text(finding.key, ""@)) + "\n\n**Severity:** "@ + or_text(
        finding.severity,
        "low"@,
    ) + "\n**Project:** `"@ + target_file + "`\n"@ + file_line(finding.location) + position_line(
        finding.location,
    ) + class_line(class_names(finding.classes)) + snippet_block(finding.location, content)
        + "**Issue Key:** "@ + or_text(finding.key, ""@) + "\n\n"@ + details_block(
        or_text(finding.description, ""@),
    ) + "**Fix:** Review and remediate in code."@
}

/// Appends the line that names the classes of a finding.
fn push_class_line(out: &mut Vec<char>, entries: &Vec<ClassEntry>)
    ensures
        final(out)@ == old(out)@ + class_line(class_names(entries.deep_view())),
{
    let names = extract_classes(entries);
    if names.len() == 0 {
        proof {
            reveal_strlit("");
            assert(out@ + ""@ =~= out@);
        }
    } else {
        let ghost start = out@;
        push_str(out, "**Classes:** ");
        push_str(out, join_strings(&names, ", ").as_str());
        push_str(out, "\n");
        proof {
            assert(out@ =~= start + class_line(class_names(entries.deep_view())));
        }
    }
}

/// Appends the lines of a finding.
fn push_snippet_block(out: &mut Vec<char>, place: &Option<SourceLocation>, content: Option<&str>)
    ensures
        final(out)@ == old(out)@ + snippet_block(
            match *place {
                Some(l) => Some(l@),
                None => None,
            },
            match content {
                Some(text) => Some(text@),
                None => None,
            },
        ),
{
    proof {
        reveal_strlit("");
        assert(out@ + ""@ =~= out@);
    }
    match (place, content) {
        (Some(l), Some(text)) => {
            match build_snippet(text, l.file.as_str(), l.line, l.end_line) {
                Some(snippet) => push_str(out, snippet.as_str()),
                None => match build_snippet(text, l.file.as_str(), l.line, l.line) {
                    Some(snippet) => push_str(out, snippet.as_str()),
                    None => {},
                },
            }
        },
        _ => {},
    }
}

/// Appends the details, where there are any.
fn push_details_block(out: &mut Vec<char>, details: &str)
    ensures
        final(out)@ == old(out)@ + details_block(details@),
{
    if is_empty(details) {
        proof {
            reveal_strlit("");
            assert(out@ + ""@ =~= out@);
        }
    } else {
        let ghost start = out@;
        push_str(out, "### Details\n");
        push_str(out, details);
        push_str(out, "\n\n");
        proof {
            assert(out@ =~= start + details_block(details@));
        }
    }
}

/// Writes the description of the issue that a finding in code becomes.
pub fn describe_code_finding(finding: &SnykFinding, target_file: &str, content: Option<&str>) -> (out:
    String)
    ensures
        out@ == code_description(
            finding@,
            target_file@,
            match content {
                Some(text) => Some(text@),
                None => None,
            },
        ),
{
    let key = text_or(&finding.key, "");
    let mut text = chars_of("## ");
    push_str(&mut text, text_or(&finding.title, key));
    push_str(&mut text, "\n\n**Severity:** ");
    push_str(&mut text, text_or(&finding.severity, "low"));
    push_str(&mut text, "\n**Project:** `");
    push_str(&mut text, target_file);
    push_str(&mut text, "`\n");
    push_location_lines(&mut text, &finding.location);
    push_class_line(&mut text, &finding.classes);
    push_snippet_block(&mut text, &finding.location, content);
    push_str(&mut text, "**Issue Key:** ");
    push_str(&mut text, key);
    push_str(&mut text, "\n\n");
    push_details_block(&mut text, text_or(&finding.description, ""));
    push_str(&mut text, "**Fix:** Review and remediate in code.");
    proof {
        assert(text@ =~= code_description(
            finding@,
            target_file@,
            match content {
                Some(c) => Some(c@),
                None => None,
            },
        ));
    }
    string_of(&text)
}

/// The title of the issue that a finding becomes.
pub open spec fn mapped_title(finding: FindingView) -> Seq<char> {
    if is_code_finding(finding) {
        "[Snyk Code] "@ + or_text(finding.title, or_text(finding.key, ""@))
    } else if or_text(finding.package_name, ""@).len() == 0 {
        "[Snyk] "@ + or_text(finding.key, ""@)
    } else {
        "[Snyk] "@ + or_text(finding.key, ""@) + " in "@ + or_text(finding.package_name, ""@)
            + "@"@ + or_text(finding.package_version, ""@)
    }
}

/// Writes the title of the issue that a finding becomes.
pub fn title_of_finding(finding: &SnykFinding) -> (out: String)
    ensures
        out@ == mapped_title(finding@),
{
    let key = text_or(&finding.key, "");
    if same_text(text_or(&finding.issue_type, "package_vulnerability"), "code") {
        let mut text = chars_of("[Snyk Code] ");
        push_str(&mut text, text_or(&finding.title, key));
        return string_of(&text);
    }
    let package = text_or(&finding.package_name, "");
    let mut text = chars_of("[Snyk] ");
    push_str(&mut text, key);
    if !is_empty(package) {
        push_str(&mut text, " in ");
        push_str(&mut text, package);
        push_str(&mut text, "@");
        push_str(&mut text, text_or(&finding.package_version, ""));
    }
    string_of(&text)
}

/// The entry of a description for one catalogued problem.
pub open spec fn cve_item(cve: Seq<char>) -> Seq<char> {
    "- ["@ + cve + "](https://nvd.nist.gov/vuln/detail/"@ + cve + ")"@
}

/// The entries for the catalogued problems, in order.
pub open spec fn cve_items(cves: Seq<Seq<char>>) -> Seq<Seq<char>> {
    Seq::new(cves.len(), |i: int| cve_item(cves[i]))
}

/// The part of a description that lists the catalogued problems.
pub open spec fn cve_block(cves: Seq<Seq<char>>) -> Seq<char> {
    if cves.len() == 0 {
        "No CVE assigned."@
    } else {
        join(cve_items(cves), "\n"@)
    }
}

/// Appends the list of the catalogued problems.
fn push_cve_block(out: &mut Vec<char>, problems: &Vec<Problem>)
    ensures
        final(out)@ == old(out)@ + cve_block(catalogued(problems.deep_view())),
{
    let cves = catalogued_problems(problems);
    if cves.len() == 0 {
        push_str(out, "No CVE assigned.");
        return ;
    }
    let mut items: Vec<String> = Vec::new();
    let mut i: usize = 0;
    while i < cves.len()
        invariant
            i <= cves.len(),
            items.deep_view() == cve_items(cves.deep_view()).take(i as int),
        decreases cves.len() - i,
    {
        let ghost before = items.deep_view();
        let mut item = chars_of("- [");
        push_str(&mut item, cves[i].as_str());
        push_str(&mut item, "](https://nvd.nist.gov/vuln/detail/");
        push_str(&mut item, cves[i].as_str());
        push_str(&mut item, ")");
        items.push(string_of(&item));
        proof {
            assert(cves.deep_view()[i as int] == cves@[i as int]@);
            assert(items.deep_view() =~= before.push(cve_item(cves@[i as int]@)));
            assert(cve_items(cves.deep_view()).take(i + 1) =~= before.push(
                cve_item(cves@[i as int]@),
            ));
        }
        i += 1;
    }
    proof {
        assert(cve_items(cves.deep_view()).take(cves.len() as int) == cve_items(cves.deep_view()));
    }
    push_str(out, join_strings(&items, "\n").as_str());
}

/// The versions in which a finding is fixed, as far as they are known.
pub open spec fn fixed_versions(v1: Option<EnrichmentView>) -> Seq<Seq<char>> {
    match v1 {
        Some(enrichment) => enrichment.fixed_in,
        None => Seq::empty(),
    }
}

/// The advice on how to fix a finding in a package: to upgrade or pin to a
/// known fixed version, else to upgrade, to pin or to let the feed fix it
/// where that can be done, else to look into it by hand.
pub open spec fn fix_advice(finding: FindingView, v1: Option<EnrichmentView>) -> Seq<char> {
    let package = or_text(finding.package_name, ""@);
    let versions = join(fixed_versions(v1), ", "@);
    if fixed_versions(v1).len() > 0 {
        if finding.upgradeable {
            "**Fix:** Upgrade `"@ + package + "` to version "@ + versions + " or later."@
        } else {
            "**Fix:** Pin `"@ + package + "` to version "@ + versions + " or later."@
        }
    } else if finding.upgradeable {
        "**Fix:** Upgrade `"@ + package + "` to a patched version."@
    } else if finding.pinnable {
        "**Fix:** Pin `"@ + package + "` to a patched version."@
    } else if finding.fixable {
        "**Fix:** Snyk fix available — run `snyk fix`."@
    } else {
        "**Fix:** No automatic fix available. Review manually."@
    }
}

/// Appends the advice on how to fix a finding in a package.
fn push_fix_advice(out: &mut Vec<char>, finding: &SnykFinding, v1: Option<&SnykEnrichment>)
    ensures
        final(out)@ == old(out)@ + fix_advice(finding@, enrichment_view(v1)),
{
    let ghost start = out@;
    let package = text_or(&finding.package_name, "");
    let known = match v1 {
        Some(enrichment) => enrichment.fixed_in.len() > 0,
        None => false,
    };
    if known {
        let versions = match v1 {
            Some(enrichment) => join_strings(&enrichment.fixed_in, ", "),
            None => String::new(),
        };
        if finding.upgradeable {
            push_str(out, "**Fix:** Upgrade `");
        } else {
            push_str(out, "**Fix:** Pin `");
        }
        push_str(out, package);
        push_str(out, "` to version ");
        push_str(out, versions.as_str());
        push_str(out, " or later.");
    } else if finding.upgradeable {
        push_str(out, "**Fix:** Upgrade `");
        push_str(out, package);
        push_str(out, "` to a patched version.");
    } else if finding.pinnable {
        push_str(out, "**Fix:** Pin `");
        push_str(out, package);
        push_str(out, "` to a patched version.");
    } else if finding.fixable {
        push_str(out, "**Fix:** Snyk fix available — run `snyk fix`.");
    } else {
        push_str(out, "**Fix:** No automatic fix available. Review manually.");
    }
    proof {
        assert(out@ =~= start + fix_advice(finding@, enrichment_view(v1)));
    }
}

/// The line that shows a score, where there is one to show.
pub open spec fn score_line(score: Option<Seq<char>>) -> Seq<Seq<char>> {
    match score {
        Some(text) if text.len() > 0 => seq!["**CVSS Score:** "@ + text],
        _ => Seq::empty(),
    }
}

/// The line that says how far exploits have come, where that is known and
/// there are any.
pub open spec fn maturity_line(maturity: Option<Seq<char>>) -> Seq<Seq<char>> {
    match maturity {
        Some(text) if text.len() > 0 && text != "no-known-exploit"@ => seq![
            "**Exploit Maturity:** "@ + text,
        ],
        _ => Seq::empty(),
    }
}

/// The line that shows the feed's own priority score, where there is one.
pub open spec fn priority_line(score: Option<i64>) -> Seq<Seq<char>> {
    match score {
        Some(points) => seq![
            "**Snyk Priority Score:** "@ + signed_digits(points as int) + "/1000"@,
        ],
        None => Seq::empty(),
    }
}

/// The lines of a description that the enrichment gives.
pub open spec fn meta_lines(v1: Option<EnrichmentView>) -> Seq<Seq<char>> {
    match v1 {
        Some(enrichment) => score_line(enrichment.cvss_score) + maturity_line(
            enrichment.exploit_maturity,
        ) + priority_line(enrichment.priority_score),
        None => Seq::empty(),
    }
}

/// The part of a description that the enrichment gives.
pub open spec fn meta_block(lines: Seq<Seq<char>>) -> Seq<char> {
    if lines.len() == 0 {
        ""@
    } else {
        join(lines, "  \n"@) + "\n\n"@
    }
}

/// Builds the lines of a description that the enrichment gives.
pub fn enrichment_lines(v1: Option<&SnykEnrichment>) -> (out: Vec<String>)
    ensures
        out.deep_view() == meta_lines(enrichment_view(v1)),
{
    let mut lines: Vec<String> = Vec::new();
    proof {
        assert(lines.deep_view() =~= Seq::<Seq<char>>::empty());
    }
    let enrichment = match v1 {
        Some(enrichment) => enrichment,
        None => {
            return lines;
        },
    };
    match &enrichment.cvss_score {
        Some(score) => {
            if !is_empty(score.as_str()) {
                let mut line = chars_of("**CVSS Score:** ");
                push_str(&mut line, score.as_str());
                lines.push(string_of(&line));
            }
        },
        None => {},
    }
    proof {
        assert(lines.deep_view() =~= score_line(enrichment@.cvss_score));
    }
    let ghost scored = lines.deep_view();
    match &enrichment.exploit_maturity {
        Some(maturity) => {
            if !is_empty(maturity.as_str()) && !same_text(maturity.as_str(), "no-known-exploit") {
                let mut line = chars_of("**Exploit Maturity:** ");
                push_str(&mut line, maturity.as_str());
                lines.push(string_of(&line));
            }
        },
        None => {},
    }
    proof {
        assert(lines.deep_view() =~= scored + maturity_line(enrichment@.exploit_maturity));
    }
    let ghost matured = lines.deep_view();
    match enrichment.priority_score {
        Some(points) => {
            let mut line = chars_of("**Snyk Priority Score:** ");
            push_all(&mut line, &format_integer(points));
            push_str(&mut line, "/1000");
            lines.push(string_of(&line));
        },
        None => {},
    }
    proof {
        assert(lines.deep_view() =~= matured + priority_line(enrichment@.priority_score));
    }
    lines
}

/// The description of the issue that a finding in a package becomes.
pub open spec fn package_description(
    finding: FindingView,
    v1: Option<EnrichmentView>,
    target_file: Seq<char>,
) -> Seq<char> {
    let key = or_text(finding.key, ""@);
    let heading = match v1 {
        Some(enrichment) => or_text(enrichment.title, key),
        None => key,
    };
    let details = match v1 {
        Some(enrichment) => or_text(enrichment.description, ""@),
        None => ""@,
    };
    "## "@ + heading + "\n\n**Severity:** "@ + or_text(finding.severity, "low"@)
        + "\n**Package:** "@ + or_text(finding.package_name, ""@) + "@"@ + or_text(
        finding.package_version,
        ""@,
    ) + "\n**File:** `"@ + target_file + "`\n\n"@ + meta_block(meta_lines(v1)) + "### CVEs\n"@
        + cve_block(catalogued(finding.problems)) + "\n\n"@ + fix_advice(finding, v1) + "\n\n"@
        + details_block(details) + "### Reference\n- [Snyk advisory](https://security.snyk.io/vuln/"@
        + key + ")"@
}

/// Writes the description of the issue that a finding in a package
/// becomes.
pub fn describe_package_finding(
    finding: &SnykFinding,
    v1: Option<&SnykEnrichment>,
    target_file: &str,
) -> (out: String)
    ensures
        out@ == package_description(finding@, enrichment_view(v1), target_file@),
{
    let key = text_or(&finding.key, "");
    let heading = match v1 {
        Some(enrichment) => text_or(&enrichment.title, key),
        None => key,
    };
    let details = match v1 {
        Some(enrichment) => text_or(&enrichment.description, ""),
        None => "",
    };
    let mut text = chars_of("## ");
    push_str(&mut text, heading);
    push_str(&mut text, "\n\n**Severity:** ");
    push_str(&mut text, text_or(&finding.severity, "low"));
    push_str(&mut text, "\n**Package:** ");
    push_str(&mut text, text_or(&finding.package_name, ""));
    push_str(&mut text, "@");
    push_str(&mut text, text_or(&finding.package_version, ""));
    push_str(&mut text, "\n**File:** `");
    push_str(&mut text, target_file);
    push_str(&mut text, "`\n\n");
    let lines = enrichment_lines(v1);
    if lines.len() > 0 {
        push_str(&mut text, join_strings(&lines, "  \n").as_str());
        push_str(&mut text, "\n\n");
    }
    let ghost headed = text@;
    push_str(&mut text, "### CVEs\n");
    push_cve_block(&mut text, &finding.problems);
    push_str(&mut text, "\n\n");
    push_fix_advice(&mut text, finding, v1);
    push_str(&mut text, "\n\n");
    push_details_block(&mut text, details);
    push_str(&mut text, "### Reference\n- [Snyk advisory](https://security.snyk.io/vuln/");
    push_str(&mut text, key);
    push_str(&mut text, ")");
    proof {
        reveal_strlit("");
        assert(text@ =~= package_description(finding@, enrichment_view(v1), target_file@));
    }
    string_of(&text)
}

/// The issue that a finding becomes: a sub-task under the task of its
/// file, open, with the priority of its severity and the labels `security`
/// and `snyk`. The identifier is left empty for the caller to fill in.
/// `content` is what the file of a finding in code holds, where it could be
/// read, and `now` the time of the mapping.
pub open spec fn mapped_issue(
    finding: FindingView,
    parent: Option<Seq<char>>,
    v1: Option<EnrichmentView>,
    target_file: Seq<char>,
    content: Option<Seq<char>>,
    now: Timestamp,
) -> IssueView {
    IssueView {
        identifier: ""@,
        title: mapped_title(finding),
        description: if is_code_finding(finding) {
            code_description(finding, target_file, content)
        } else {
            package_description(finding, v1, target_file)
        },
        issue_type: "sub-task"@,
        status: "open"@,
        priority: priority_of_severity(or_text(finding.severity, "low"@)),
        assignee: None,
        creator: None,
        parent,
        labels: seq!["security"@, "snyk"@],
        dependencies: Seq::empty(),
        comments: Seq::empty(),
        created_at: now,
        updated_at: now,
        closed_at: None,
        custom: finding_fields(finding),
    }
}

/// The labels that every issue of the feed carries.
fn feed_labels() -> (out: Vec<String>)
    ensures
        out.deep_view() == seq!["security"@, "snyk"@],
{
    let mut labels: Vec<String> = Vec::new();
    labels.push(owned("security"));
    labels.push(owned("snyk"));
    proof {
        assert(labels.deep_view() =~= seq!["security"@, "snyk"@]);
    }
    labels
}

/// Maps a finding of the feed to the issue that it becomes.
pub fn map_snyk_to_kanbus(
    finding: &SnykFinding,
    parent_task_id: &Option<String>,
    v1: Option<&SnykEnrichment>,
    target_file: &str,
    content: Option<&str>,
    now: Timestamp,
) -> (out: IssueData)
    ensures
        out@ == mapped_issue(
            finding@,
            option_text(*parent_task_id),
            enrichment_view(v1),
            target_file@,
            match content {
                Some(text) => Some(text@),
                None => None,
            },
            now,
        ),
{
    let code = same_text(text_or(&finding.issue_type, "package_vulnerability"), "code");
    let description = if code {
        describe_code_finding(finding, target_file, content)
    } else {
        describe_package_finding(finding, v1, target_file)
    };
    let issue = IssueData {
        identifier: String::new(),
        title: title_of_finding(finding),
        description,
        issue_type: owned("sub-task"),
        status: owned("open"),
        priority: severity_to_priority(text_or(&finding.severity, "low")),
        assignee: None,
        creator: None,
        parent: crate::models::clone_option(parent_task_id),
        labels: feed_labels(),
        dependencies: Vec::new(),
        comments: Vec::new(),
        created_at: now,
        updated_at: now,
        closed_at: None,
        custom: custom_fields(finding),
    };
    proof {
        reveal_strlit("");
        assert(issue.identifier@ =~= ""@);
        assert(issue.dependencies.deep_view() =~= Seq::empty());
        assert(issue.comments.deep_view() =~= Seq::empty());
    }
    issue
}

/// A line and a column as the feed gives them, either of which may be
/// missing.
#[derive(Debug, Clone, Copy, PartialEq, Eq, Structural)]
pub struct PointRecord {
    pub line: Option<i64>,
    pub column: Option<i64>,
}

/// The region of a finding as the feed gives it: its start and its end,
/// where it names them, and the line and column that the region itself
/// carries, which stand in for a start or an end that is missing.
#[derive(Debug, Clone, Copy, PartialEq, Eq, Structural)]
pub struct RegionRecord {
    pub start: Option<PointRecord>,
    pub end: Option<PointRecord>,
    pub own: PointRecord,
}

/// The place of a finding as the feed gives it: the file, then a region, or
/// else a line and a column.
#[derive(Debug)]
pub struct LocationRecord {
    pub file: Option<String>,
    pub region: Option<RegionRecord>,
    pub line: Option<i64>,
    pub column: Option<i64>,
}

/// One coordinate of a finding as the feed gives it: `None` where it holds
/// no list of representations, else what the first representation says of
/// the place under one of the two names of that field, if there is a first.
#[derive(Debug)]
pub struct CoordinateRecord {
    pub first: Option<Option<Option<LocationRecord>>>,
}

/// What a coordinate says of the place of a finding.
pub enum Sighting {
    /// The search ends without a place.
    Ended,
    /// The coordinate says nothing; the next one is looked at.
    Nothing,
    /// The place is found.
    Found(SourceLocationView),
}

/// The place that a location of the feed names.
pub open spec fn place_of(location: LocationRecord) -> Option<SourceLocationView> {
    match location.file {
        None => None,
        Some(file) => match location.region {
            Some(region) => {
                let start = match region.start {
                    Some(point) => point,
                    None => region.own,
                };
                let end = match region.end {
                    Some(point) => point,
                    None => region.own,
                };
                Some(
                    SourceLocationView {
                        file: file@,
                        line: start.line,
                        column: start.column,
                        end_line: end.line,
                        end_column: end.column,
                    },
                )
            },
            None => Some(
                SourceLocationView {
                    file: file@,
                    line: location.line,
                    column: location.column,
                    end_line: None,
                    end_column: None,
                },
            ),
        },
    }
}

/// What one coordinate says: without a list of representations, without a
/// place in its first representation, or with a place without a file, the
/// search ends; without a first representation the next coordinate is looked
/// at.
pub open spec fn sighting(coordinate: CoordinateRecord) -> Sighting {
    match coordinate.first {
        None => Sighting::Ended,
        Some(None) => Sighting::Nothing,
        Some(Some(None)) => Sighting::Ended,
        Some(Some(Some(location))) => match place_of(location) {
            Some(place) => Sighting::Found(place),
            None => Sighting::Ended,
        },
    }
}

/// The place of a finding: what the first coordinate that says anything
/// says.
pub open spec fn located(coordinates: Seq<CoordinateRecord>) -> Option<SourceLocationView>
    decreases coordinates.len(),
{
    if coordinates.len() == 0 {
        None
    } else {
        match sighting(coordinates[0]) {
            Sighting::Ended => None,
            Sighting::Found(place) => Some(place),
            Sighting::Nothing => located(coordinates.drop_first()),
        }
    }
}

/// Reads the place that a location of the feed names.
fn read_place(location: &LocationRecord) -> (out: Option<SourceLocation>)
    ensures
        (match out {
            Some(place) => Some(place@),
            None => None,
        }) == place_of(*location),
{
    let file = match &location.file {
        Some(file) => file.clone(),
        None => {
            return None;
        },
    };
    match location.region {
        Some(region) => {
            let start = match region.start {
                Some(point) => point,
                None => region.own,
            };
            let end = match region.end {
                Some(point) => point,
                None => region.own,
            };
            Some(
                SourceLocation {
                    file,
                    line: start.line,
                    column: start.column,
                    end_line: end.line,
                    end_column: end.column,
                },
            )
        },
        None => Some(
            SourceLocation {
                file,
                line: location.line,
                column: location.column,
                end_line: None,
                end_column: None,
            },
        ),
    }
}

/// Finds the place of a finding among its coordinates.
pub fn extract_source_location(coordinates: &Vec<CoordinateRecord>) -> (out: Option<SourceLocation>)
    ensures
        (match out {
            Some(place) => Some(place@),
            None => None,
        }) == located(coordinates@),
{
    let mut i: usize = 0;
    proof {
        assert(coordinates@.skip(0) == coordinates@);
    }
    while i < coordinates.len()
        invariant
            i <= coordinates.len(),
            located(coordinates@) == located(coordinates@.skip(i as int)),
        decreases coordinates.len() - i,
    {
        proof {
            let rest = coordinates@.skip(i as int);
            assert(rest[0] == coordinates@[i as int]);
            assert(rest.drop_first() =~= coordinates@.skip(i + 1));
        }
        match &coordinates[i].first {
            None => {
                return None;
            },
            Some(None) => {},
            Some(Some(None)) => {
                return None;
            },
            Some(Some(Some(location))) => {
                return read_place(location);
            },
        }
        i += 1;
    }
    proof {
        assert(coordinates@.skip(coordinates.len() as int) =~= Seq::<CoordinateRecord>::empty());
    }
    None
}

} // verus!
