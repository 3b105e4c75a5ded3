//! Quality signals for issue descriptions and comments: repairing escaped
//! line feeds and pointing out missing Markdown and diagrams.

use crate::decimal::{is_digit, is_digit_char};
use crate::lines::{lines, rows, split_lines};
use crate::models::{clone_strings, option_text};
use crate::text::{
    chars_of, contains, contains_chars, has_char, is_space, is_space_char, occurs_at,
    occurs_at_chars, owned, push_str, same_chars, same_chars_ignoring_case, same_ignoring_case,
    starts_with, starts_with_chars, string_of, trim, trim_chars, trim_start, trim_start_chars,
};
use vstd::prelude::*;

verus! {

/// Result of applying quality signals to a text value.
#[derive(Debug)]
pub struct TextQualityResult {
    /// The (possibly repaired) text after processing.
    pub text: String,
    /// Warning messages describing automatic transformations.
    pub warnings: Vec<String>,
    /// Non-blocking suggestion messages.
    pub suggestions: Vec<String>,
    /// True if literal `\n` sequences were replaced with real newlines.
    pub escape_sequences_repaired: bool,
}

/// Mathematical content of [`TextQualityResult`].
pub struct TextQualityView {
    pub text: Seq<char>,
    pub warnings: Seq<Seq<char>>,
    pub suggestions: Seq<Seq<char>>,
    pub escape_sequences_repaired: bool,
}

impl View for TextQualityResult {
    type V = TextQualityView;

    open spec fn view(&self) -> TextQualityView {
        TextQualityView {
            text: self.text@,
            warnings: self.warnings.deep_view(),
            suggestions: self.suggestions.deep_view(),
            escape_sequences_repaired: self.escape_sequences_repaired,
        }
    }
}

impl Default for TextQualityResult {
    fn default() -> (out: Self)
        ensures
            out@.text.len() == 0,
            out@.warnings.len() == 0,
            out@.suggestions.len() == 0,
            !out@.escape_sequences_repaired,
    {
        TextQualityResult {
            text: String::new(),
            warnings: Vec::new(),
            suggestions: Vec::new(),
            escape_sequences_repaired: false,
        }
    }
}

/// Whether a backslash followed by the letter `n` stands at index `at`.
pub open spec fn escape_at(s: Seq<char>, at: int) -> bool {
    0 <= at && at + 1 < s.len() && s[at] == '\\' && s[at + 1] == 'n'
}

/// Whether `s` holds a backslash followed by the letter `n`.
pub open spec fn has_escape(s: Seq<char>) -> bool {
    exists|at: int| escape_at(s, at)
}

/// `s` with every backslash-`n` pair, taken from left to right, replaced by a
/// line feed.
pub open spec fn unescaped(s: Seq<char>) -> Seq<char>
    decreases s.len(),
{
    if s.len() == 0 {
        Seq::empty()
    } else if escape_at(s, 0) {
        seq!['\n'] + unescaped(s.skip(2))
    } else {
        seq![s[0]] + unescaped(s.skip(1))
    }
}

/// Replace literal backslash-n sequences with real newline characters. The
/// flag says whether any was replaced.
pub fn repair_escape_sequences(text: &str) -> (out: (String, bool))
    ensures
        out.0@ == unescaped(text@),
        out.1 == has_escape(text@),
        !out.1 ==> out.0@ == text@,
{
    let source = chars_of(text);
    let mut repaired: Vec<char> = Vec::new();
    let mut changed = false;
    let mut i: usize = 0;
    proof {
        assert(source@.skip(0) == source@);
    }
    while i < source.len()
        invariant
            i <= source.len(),
            unescaped(source@) == repaired@ + unescaped(source@.skip(i as int)),
            changed ==> has_escape(source@),
            !changed ==> repaired@ == source@.take(i as int),
            !changed ==> forall|j: int| 0 <= j < i ==> !escape_at(source@, j),
        decreases source.len() - i,
    {
        let ghost rest = source@.skip(i as int);
        let ghost before = repaired@;
        proof {
            assert(rest[0] == source@[i as int]);
        }
        if source[i] == '\\' && i + 1 < source.len() && source[i + 1] == 'n' {
            proof {
                assert(rest[1] == source@[i + 1]);
                assert(escape_at(rest, 0));
                assert(escape_at(source@, i as int));
                assert(rest.skip(2) == source@.skip(i + 2));
                assert(before + (seq!['\n'] + unescaped(rest.skip(2))) == before.push('\n')
                    + unescaped(rest.skip(2)));
            }
            repaired.push('\n');
            changed = true;
            i += 2;
        } else {
            proof {
                if i + 1 < source.len() {
                    assert(rest[1] == source@[i + 1]);
                }
                assert(!escape_at(rest, 0));
                assert(rest.skip(1) == source@.skip(i + 1));
                assert(before + (seq![rest[0]] + unescaped(rest.skip(1))) == before.push(rest[0])
                    + unescaped(rest.skip(1)));
                if !changed {
                    assert(source@.take(i + 1) == source@.take(i as int).push(source@[i as int]));
                }
            }
            repaired.push(source[i]);
            i += 1;
        }
    }
    proof {
        assert(source@.skip(source.len() as int) == Seq::<char>::empty());
        assert(repaired@ + Seq::<char>::empty() == repaired@);
        if !changed {
            assert(source@.take(source.len() as int) == source@);
        }
    }
    (string_of(&repaired), changed)
}

/// The number of places at which `p` is found in `s` when the search goes
/// from left to right and resumes behind each find.
pub open spec fn count_matches(s: Seq<char>, p: Seq<char>) -> nat
    decreases s.len(),
{
    if p.len() == 0 || s.len() < p.len() {
        0
    } else if occurs_at(s, p, 0) {
        1 + count_matches(s.skip(p.len() as int), p)
    } else {
        count_matches(s.skip(1), p)
    }
}

/// Whether `p` is found at least twice in `s`.
pub open spec fn occurs_twice(s: Seq<char>, p: Seq<char>) -> bool {
    count_matches(s, p) >= 2
}

/// Executable form of [`occurs_twice`].
fn occurs_twice_chars(v: &Vec<char>, p: &Vec<char>) -> (out: bool)
    requires
        p.len() > 0,
    ensures
        out == occurs_twice(v@, p@),
{
    let mut found: usize = 0;
    let mut i: usize = 0;
    proof {
        assert(v@.skip(0) == v@);
    }
    while i < v.len() && v.len() - i >= p.len()
        invariant
            i <= v.len(),
            p.len() > 0,
            found < 2,
            count_matches(v@, p@) == found + count_matches(v@.skip(i as int), p@),
        decreases v.len() - i,
    {
        let ghost rest = v@.skip(i as int);
        if occurs_at_chars(v, p, i) {
            proof {
                assert(rest.subrange(0, p.len() as int) == v@.subrange(i as int, i + p.len()));
                assert(rest.skip(p.len() as int) == v@.skip(i + p.len()));
            }
            found += 1;
            if found == 2 {
                return true;
            }
            i += p.len();
        } else {
            proof {
                assert(rest.subrange(0, p.len() as int) == v@.subrange(i as int, i + p.len()));
                assert(rest.skip(1) == v@.skip(i + 1));
            }
            i += 1;
        }
    }
    false
}

/// Whether an emphasis run opened by `marker` is found in `s` from index
/// `at` on, where `open` says whether a run is open there. A marker that
/// does not follow another marker, and is followed by a character, opens a run
/// when that character is neither white space nor the marker; in an open run
/// it closes the run before white space and completes the emphasis before
/// anything else.
pub open spec fn emphasis_from(s: Seq<char>, marker: char, at: int, open: bool) -> bool
    decreases s.len() - at,
{
    if at < 0 || at >= s.len() {
        false
    } else {
        let previous = if at == 0 {
            ' '
        } else {
            s[at - 1]
        };
        if s[at] == marker && previous != marker && at + 1 < s.len() {
            let next = s[at + 1];
            if open && !is_space(next) {
                true
            } else if !open && !is_space(next) && next != marker {
                emphasis_from(s, marker, at + 1, true)
            } else {
                emphasis_from(s, marker, at + 1, false)
            }
        } else {
            emphasis_from(s, marker, at + 1, open)
        }
    }
}

/// Whether `s` holds inline emphasis marked by `marker`.
pub open spec fn has_inline_emphasis(s: Seq<char>, marker: char) -> bool {
    emphasis_from(s, marker, 0, false)
}

/// Executable form of [`has_inline_emphasis`].
fn contains_inline_emphasis(v: &Vec<char>, marker: char) -> (out: bool)
    ensures
        out == has_inline_emphasis(v@, marker),
{
    let mut open = false;
    let mut i: usize = 0;
    while i < v.len()
        invariant
            i <= v.len(),
            has_inline_emphasis(v@, marker) == emphasis_from(v@, marker, i as int, open),
        decreases v.len() - i,
    {
        let previous = if i == 0 {
            ' '
        } else {
            v[i - 1]
        };
        if v[i] == marker && previous != marker && i + 1 < v.len() {
            let next = v[i + 1];
            let spaced = is_space_char(next);
            if open && !spaced {
                return true;
            }
            if !open && !spaced && next != marker {
                open = true;
            } else {
                open = false;
            }
        }
        i += 1;
    }
    false
}

/// Whether one line, by itself, shows Markdown: a heading, a quote, a list
/// item, a numbered item or a rule.
pub open spec fn line_shows_markdown(line: Seq<char>) -> bool {
    let lead = trim_start(line);
    ||| starts_with(lead, "# "@)
    ||| starts_with(lead, "## "@)
    ||| starts_with(lead, "### "@)
    ||| starts_with(lead, "#### "@)
    ||| starts_with(lead, "##### "@)
    ||| starts_with(lead, "###### "@)
    ||| (lead.len() > 0 && lead[0] == '>')
    ||| starts_with(lead, "- "@)
    ||| starts_with(lead, "* "@)
    ||| starts_with(lead, "+ "@)
    ||| (lead.len() > 2 && is_digit(lead[0]) && contains(lead, ". "@))
    ||| trim(line) == "---"@
}

/// Whether `text` contains at least one Markdown element.
pub open spec fn shows_markdown(text: Seq<char>) -> bool {
    ||| (exists|i: int| 0 <= i < lines(text).len() && line_shows_markdown(#[trigger] lines(text)[i]))
    ||| occurs_twice(text, "**"@)
    ||| has_inline_emphasis(text, '*')
    ||| occurs_twice(text, "__"@)
    ||| has_inline_emphasis(text, '_')
    ||| contains(text, "```"@)
    ||| text.contains('`')
    ||| contains(text, "]("@)
}

/// Executable form of [`line_shows_markdown`].
fn line_has_markdown(line: &Vec<char>) -> (out: bool)
    ensures
        out == line_shows_markdown(line@),
{
    let lead = trim_start_chars(line);
    if starts_with_chars(&lead, &chars_of("# ")) || starts_with_chars(&lead, &chars_of("## "))
        || starts_with_chars(&lead, &chars_of("### ")) || starts_with_chars(
        &lead,
        &chars_of("#### "),
    ) || starts_with_chars(&lead, &chars_of("##### ")) || starts_with_chars(
        &lead,
        &chars_of("###### "),
    ) {
        return true;
    }
    if lead.len() > 0 && lead[0] == '>' {
        return true;
    }
    if starts_with_chars(&lead, &chars_of("- ")) || starts_with_chars(&lead, &chars_of("* "))
        || starts_with_chars(&lead, &chars_of("+ ")) {
        return true;
    }
    if lead.len() > 2 && is_digit_char(lead[0]) && contains_chars(&lead, &chars_of(". ")) {
        return true;
    }
    let bare = trim_chars(line);
    same_chars(&bare, &chars_of("---"))
}

/// Return true if the text contains at least one Markdown element.
pub fn has_markdown_formatting(text: &str) -> (out: bool)
    ensures
        out == shows_markdown(text@),
{
    let all = chars_of(text);
    let text_lines = split_lines(&all);
    let mut i: usize = 0;
    while i < text_lines.len()
        invariant
            i <= text_lines.len(),
            rows(text_lines@) == lines(text@),
            forall|j: int| 0 <= j < i ==> !line_shows_markdown(#[trigger] lines(text@)[j]),
        decreases text_lines.len() - i,
    {
        proof {
            assert(rows(text_lines@)[i as int] == text_lines@[i as int]@);
        }
        if line_has_markdown(&text_lines[i]) {
            return true;
        }
        i += 1;
    }
    let stars = chars_of("**");
    let bars = chars_of("__");
    proof {
        reveal_strlit("**");
        reveal_strlit("__");
    }
    occurs_twice_chars(&all, &stars) || contains_inline_emphasis(&all, '*') || occurs_twice_chars(
        &all,
        &bars,
    ) || contains_inline_emphasis(&all, '_') || contains_chars(&all, &chars_of("```")) || has_char(
        &all,
        '`',
    ) || contains_chars(&all, &chars_of("]("))
}

/// Whether one line opens a diagram block: a fence with one of the diagram
/// languages, in any case of letters.
pub open spec fn opens_diagram(line: Seq<char>) -> bool {
    let bare = trim(line);
    same_ignoring_case(bare, "```mermaid"@) || same_ignoring_case(bare, "```plantuml"@)
        || same_ignoring_case(bare, "```d2"@)
}

/// Whether `text` holds a diagram block.
pub open spec fn shows_diagram(text: Seq<char>) -> bool {
    exists|i: int| 0 <= i < lines(text).len() && opens_diagram(#[trigger] lines(text)[i])
}

/// Return true if the text contains at least one diagram fenced code block.
pub fn has_diagram_block(text: &str) -> (out: bool)
    ensures
        out == shows_diagram(text@),
{
    let all = chars_of(text);
    let text_lines = split_lines(&all);
    let mermaid = chars_of("```mermaid");
    let plantuml = chars_of("```plantuml");
    let d2 = chars_of("```d2");
    let mut i: usize = 0;
    while i < text_lines.len()
        invariant
            i <= text_lines.len(),
            rows(text_lines@) == lines(text@),
            mermaid@ == "```mermaid"@,
            plantuml@ == "```plantuml"@,
            d2@ == "```d2"@,
            forall|j: int| 0 <= j < i ==> !opens_diagram(#[trigger] lines(text@)[j]),
        decreases text_lines.len() - i,
    {
        proof {
            assert(rows(text_lines@)[i as int] == text_lines@[i as int]@);
        }
        let bare = trim_chars(&text_lines[i]);
        if same_chars_ignoring_case(&bare, &mermaid) || same_chars_ignoring_case(&bare, &plantuml)
            || same_chars_ignoring_case(&bare, &d2) {
            return true;
        }
        i += 1;
    }
    false
}

/// The warning given when escaped line feeds were repaired.
pub const ESCAPE_WARNING: &'static str =
    "WARNING: Literal \\n escape sequences were detected and replaced with real newlines.\n  To pass multi-line text correctly, use a heredoc or $'...\\n...' syntax:\n    kbs create \"Title\" --description $'First line\\nSecond line'\n    kbs create \"Title\" --description \"$(cat <<'EOF'\\nFirst line\\nSecond line\\nEOF\\n)\"";

/// The suggestion given for text without Markdown.
pub const MARKDOWN_SUGGESTION: &'static str =
    "SUGGESTION: Markdown formatting is supported in descriptions and comments.\n  Use headings, bold, code blocks, and lists when they improve readability.";

/// The suggestion given for text without a diagram.
pub const DIAGRAM_SUGGESTION: &'static str =
    "SUGGESTION: Diagrams can be embedded using fenced code blocks.\n  Supported: mermaid, plantuml, d2. Use these to visualize flows or structures.";

/// What the signals come to for `text`: the repaired text, one warning if
/// anything was repaired, and a suggestion for each of Markdown and diagrams
/// that the repaired text lacks.
pub open spec fn quality_of(text: Seq<char>) -> TextQualityView {
    let repaired = unescaped(text);
    TextQualityView {
        text: repaired,
        warnings: if has_escape(text) {
            seq![ESCAPE_WARNING@]
        } else {
            Seq::empty()
        },
        suggestions: (if shows_markdown(repaired) {
            Seq::<Seq<char>>::empty()
        } else {
            seq![MARKDOWN_SUGGESTION@]
        }) + (if shows_diagram(repaired) {
            Seq::<Seq<char>>::empty()
        } else {
            seq![DIAGRAM_SUGGESTION@]
        }),
        escape_sequences_repaired: has_escape(text),
    }
}

/// Apply all quality signals to the given text.
pub fn apply_text_quality_signals(text: &str) -> (out: TextQualityResult)
    ensures
        out@ == quality_of(text@),
{
    let (repaired, changed) = repair_escape_sequences(text);
    let mut warnings: Vec<String> = Vec::new();
    let mut suggestions: Vec<String> = Vec::new();
    if changed {
        warnings.push(owned(ESCAPE_WARNING));
    }
    if !has_markdown_formatting(repaired.as_str()) {
        suggestions.push(owned(MARKDOWN_SUGGESTION));
    }
    if !has_diagram_block(repaired.as_str()) {
        suggestions.push(owned(DIAGRAM_SUGGESTION));
    }
    let out = TextQualityResult {
        text: repaired,
        warnings,
        suggestions,
        escape_sequences_repaired: changed,
    };
    proof {
        assert(out@.warnings =~= quality_of(text@).warnings);
        assert(out@.suggestions =~= quality_of(text@).suggestions);
    }
    out
}

/// The hint that follows suggestions: how to update the comment, where the
/// text was a comment, else how to update what `context` names.
pub open spec fn follow_up_hint(context: Seq<char>, issue_id: Seq<char>, comment_id: Option<Seq<char>>) -> Seq<
    char,
> {
    match comment_id {
        Some(comment) => "  -> To update this comment: kbs comment update "@ + issue_id + " "@
            + comment + " \"<your improved comment here>\""@,
        None => "  -> To update the "@ + context + ": kbs update "@ + issue_id
            + " --description \"<your improved description here>\""@,
    }
}

/// The lines that the signals of `result` put out: the warnings, then the
/// suggestions, then a hint if there was a suggestion and the issue is known.
pub open spec fn signal_lines(
    result: TextQualityView,
    context: Seq<char>,
    issue_id: Option<Seq<char>>,
    comment_id: Option<Seq<char>>,
) -> Seq<Seq<char>> {
    result.warnings + result.suggestions + (if result.suggestions.len() > 0 && issue_id is Some {
        seq![follow_up_hint(context, issue_id->0, comment_id)]
    } else {
        Seq::empty()
    })
}

/// Builds the hint that follows suggestions.
fn emit_follow_up_hint(context: &str, issue_id: &str, comment_id: Option<&str>) -> (out: String)
    ensures
        out@ == follow_up_hint(
            context@,
            issue_id@,
            match comment_id {
                Some(comment) => Some(comment@),
                None => None,
            },
        ),
{
    match comment_id {
        Some(comment) => {
            let mut line = chars_of("  -> To update this comment: kbs comment update ");
            push_str(&mut line, issue_id);
            push_str(&mut line, " ");
            push_str(&mut line, comment);
            push_str(&mut line, " \"<your improved comment here>\"");
            string_of(&line)
        },
        None => {
            let mut line = chars_of("  -> To update the ");
            push_str(&mut line, context);
            push_str(&mut line, ": kbs update ");
            push_str(&mut line, issue_id);
            push_str(&mut line, " --description \"<your improved description here>\"");
            string_of(&line)
        },
    }
}

/// The lines to put out on the error stream for `result`, in order. The
/// caller writes them.
pub fn emit_signals(
    result: &TextQualityResult,
    context: &str,
    issue_id: Option<&str>,
    comment_id: Option<&str>,
    _is_update: bool,
) -> (out: Vec<String>)
    ensures
        out.deep_view() == signal_lines(
            result@,
            context@,
            match issue_id {
                Some(id) => Some(id@),
                None => None,
            },
            match comment_id {
                Some(comment) => Some(comment@),
                None => None,
            },
        ),
{
    let mut out = clone_strings(&result.warnings);
    let mut i: usize = 0;
    while i < result.suggestions.len()
        invariant
            i <= result.suggestions.len(),
            out.deep_view() == result.warnings.deep_view() + result.suggestions.deep_view().take(
                i as int,
            ),
        decreases result.suggestions.len() - i,
    {
        let ghost before = out.deep_view();
        out.push(result.suggestions[i].clone());
        proof {
            assert(out.deep_view() =~= before.push(result.suggestions@[i as int]@));
            assert(result.suggestions.deep_view().take(i + 1)
                =~= result.suggestions.deep_view().take(i as int).push(
                result.suggestions@[i as int]@,
            ));
        }
        i += 1;
    }
    proof {
        assert(result.suggestions.deep_view().take(result.suggestions.len() as int)
            == result.suggestions.deep_view());
    }
    if result.suggestions.len() > 0 {
        match issue_id {
            Some(id) => {
                let ghost before = out.deep_view();
                let hint = emit_follow_up_hint(context, id, comment_id);
                out.push(hint);
                proof {
                    assert(out.deep_view() =~= before.push(hint@));
                }
            },
            None => {},
        }
    }
    out
}

/// Where what is meant for the error stream goes while it is captured: the
/// text captured so far, or nothing while no capture is on.
#[derive(Debug)]
pub struct StderrCapture {
    pub buffer: Option<String>,
}

impl View for StderrCapture {
    type V = Option<Seq<char>>;

    open spec fn view(&self) -> Option<Seq<char>> {
        option_text(self.buffer)
    }
}

impl StderrCapture {
    /// A capture that is not on.
    pub fn new() -> (out: Self)
        ensures
            out@ is None,
    {
        StderrCapture { buffer: None }
    }
}

/// Turns the capture on, with nothing captured yet.
pub fn start_stderr_capture(capture: &mut StderrCapture)
    ensures
        final(capture)@ == Some(Seq::<char>::empty()),
{
    capture.buffer = Some(String::new());
}

/// Turns the capture off and hands back what was captured, or nothing where
/// the capture was not on.
pub fn take_captured_stderr(capture: &mut StderrCapture) -> (out: Option<String>)
    ensures
        option_text(out) == old(capture)@,
        final(capture)@ is None,
{
    let mut taken: Option<String> = None;
    std::mem::swap(&mut capture.buffer, &mut taken);
    taken
}

/// Takes one line meant for the error stream: while the capture is on, the
/// line goes into it with a line feed behind, and `true` comes back; else
/// `false` comes back and the line is left to the caller to write.
pub fn write_stderr(capture: &mut StderrCapture, message: &str) -> (out: bool)
    ensures
        match old(capture)@ {
            Some(text) => out && final(capture)@ == Some(text + message@ + "\n"@),
            None => !out && final(capture)@ is None,
        },
{
    let mut taken: Option<String> = None;
    std::mem::swap(&mut capture.buffer, &mut taken);
    match taken {
        Some(text) => {
            let mut grown = chars_of(text.as_str());
            push_str(&mut grown, message);
            push_str(&mut grown, "\n");
            capture.buffer = Some(string_of(&grown));
            true
        },
        None => false,
    }
}

} // verus!
