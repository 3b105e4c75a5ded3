//! Fenced code blocks in Markdown text: finding them and checking what they
//! hold.

use crate::decimal::{decimal_digits, format_decimal};
use crate::error::{unit_result, KanbusError, KanbusErrorView};
use crate::lines::{lines, rows, split_lines};
use crate::models::option_text;
use crate::text::{
    chars_of, join, push_all, push_str, same_chars, slice_of, starts_with, starts_with_chars,
    string_of, trim, trim_chars,
};
use vstd::prelude::*;

verus! {

/// A fenced code block extracted from Markdown text.
#[derive(Debug)]
pub struct CodeBlock {
    /// Language identifier from the opening fence.
    pub language: String,
    /// Content between the fences.
    pub content: String,
    /// One-based line number of the opening fence.
    pub start_line: usize,
}

/// Mathematical content of [`CodeBlock`].
pub struct CodeBlockView {
    pub language: Seq<char>,
    pub content: Seq<char>,
    pub start_line: nat,
}

impl View for CodeBlock {
    type V = CodeBlockView;

    open spec fn view(&self) -> CodeBlockView {
        CodeBlockView {
            language: self.language@,
            content: self.content@,
            start_line: self.start_line as nat,
        }
    }
}

impl DeepView for CodeBlock {
    type V = CodeBlockView;

    open spec fn deep_view(&self) -> CodeBlockView {
        self@
    }
}

impl Clone for CodeBlock {
    fn clone(&self) -> (out: Self)
        ensures
            out@ == self@,
    {
        CodeBlock {
            language: self.language.clone(),
            content: self.content.clone(),
            start_line: self.start_line,
        }
    }
}

/// The three backticks that open and close a block.
pub open spec fn fence() -> Seq<char> {
    seq!['`', '`', '`']
}

/// Where a scan through the lines of a text stands.
pub struct Scan {
    /// Whether the last fence seen opened a block.
    pub in_block: bool,
    /// The language of the open block.
    pub language: Seq<char>,
    /// The lines of the open block so far.
    pub content: Seq<Seq<char>>,
    /// The line number of the fence that opened the block.
    pub start_line: nat,
    /// The blocks closed so far.
    pub blocks: Seq<CodeBlockView>,
}

/// The scan before the first line.
pub open spec fn scan_start() -> Scan {
    Scan {
        in_block: false,
        language: Seq::empty(),
        content: Seq::empty(),
        start_line: 0,
        blocks: Seq::empty(),
    }
}

/// The scan after one more line, which is line `number` of the text. Outside
/// a block, a line that starts with a fence (white space aside) opens one and
/// names its language; inside, a line that is a fence and nothing else closes
/// it, and any other line belongs to the content as it stands.
pub open spec fn scan_line(scan: Scan, number: nat, line: Seq<char>) -> Scan {
    let trimmed = trim(line);
    if !scan.in_block {
        if starts_with(trimmed, fence()) {
            Scan {
                in_block: true,
                language: trim(trimmed.skip(3)),
                content: Seq::empty(),
                start_line: number,
                ..scan
            }
        } else {
            scan
        }
    } else if trimmed == fence() {
        Scan {
            in_block: false,
            blocks: scan.blocks.push(
                CodeBlockView {
                    language: scan.language,
                    content: join(scan.content, seq!['\n']),
                    start_line: scan.start_line,
                },
            ),
            ..scan
        }
    } else {
        Scan { content: scan.content.push(line), ..scan }
    }
}

/// The scan after all of `text_lines`.
pub open spec fn scan_lines(text_lines: Seq<Seq<char>>) -> Scan
    decreases text_lines.len(),
{
    if text_lines.len() == 0 {
        scan_start()
    } else {
        scan_line(scan_lines(text_lines.drop_last()), text_lines.len(), text_lines.last())
    }
}

/// The closed code blocks of `text`, in order. A block that is still open at
/// the end of the text is left out.
pub open spec fn code_blocks(text: Seq<char>) -> Seq<CodeBlockView> {
    scan_lines(lines(text)).blocks
}

/// The characters of a fence.
fn fence_chars() -> (out: Vec<char>)
    ensures
        out@ == fence(),
{
    let mut out: Vec<char> = Vec::new();
    out.push('`');
    out.push('`');
    out.push('`');
    proof {
        assert(out@ =~= fence());
    }
    out
}

/// The rows joined by line feeds.
fn join_rows(parts: &Vec<Vec<char>>) -> (out: Vec<char>)
    ensures
        out@ == join(rows(parts@), seq!['\n']),
{
    let mut out: Vec<char> = Vec::new();
    let mut i: usize = 0;
    proof {
        assert(rows(parts@).take(0) == Seq::<Seq<char>>::empty());
    }
    while i < parts.len()
        invariant
            i <= parts.len(),
            out@ == join(rows(parts@).take(i as int), seq!['\n']),
        decreases parts.len() - i,
    {
        proof {
            let next = rows(parts@).take(i + 1);
            assert(next.drop_last() == rows(parts@).take(i as int));
            assert(next.last() == parts@[i as int]@);
        }
        if i > 0 {
            let ghost before = out@;
            out.push('\n');
            proof {
                assert(out@ == before + seq!['\n']);
            }
        }
        push_all(&mut out, &parts[i]);
        i += 1;
    }
    proof {
        assert(rows(parts@).take(parts.len() as int) == rows(parts@));
    }
    out
}

/// Extracts all fenced code blocks from Markdown text.
pub fn extract_code_blocks(text: &str) -> (out: Vec<CodeBlock>)
    ensures
        out.deep_view() == code_blocks(text@),
{
    let all = chars_of(text);
    let text_lines = split_lines(&all);
    let marker = fence_chars();
    let mut blocks: Vec<CodeBlock> = Vec::new();
    let mut in_block = false;
    let mut language: Vec<char> = Vec::new();
    let mut content: Vec<Vec<char>> = Vec::new();
    let mut start_line: usize = 0;
    let mut i: usize = 0;
    proof {
        assert(rows(text_lines@).take(0) == Seq::<Seq<char>>::empty());
        assert(blocks.deep_view() =~= Seq::<CodeBlockView>::empty());
        assert(rows(content@) =~= Seq::<Seq<char>>::empty());
    }
    while i < text_lines.len()
        invariant
            i <= text_lines.len(),
            marker@ == fence(),
            scan_lines(rows(text_lines@).take(i as int)) == (Scan {
                in_block,
                language: language@,
                content: rows(content@),
                start_line: start_line as nat,
                blocks: blocks.deep_view(),
            }),
        decreases text_lines.len() - i,
    {
        proof {
            let next = rows(text_lines@).take(i + 1);
            assert(next.drop_last() == rows(text_lines@).take(i as int));
            assert(next.last() == text_lines@[i as int]@);
        }
        let trimmed = trim_chars(&text_lines[i]);
        if !in_block {
            if starts_with_chars(&trimmed, &marker) {
                let rest = slice_of(&trimmed, 3, trimmed.len());
                proof {
                    assert(trimmed@.subrange(3, trimmed.len() as int) == trimmed@.skip(3));
                }
                language = trim_chars(&rest);
                in_block = true;
                content = Vec::new();
                start_line = i + 1;
                proof {
                    assert(rows(content@) =~= Seq::<Seq<char>>::empty());
                }
            }
        } else if same_chars(&trimmed, &marker) {
            let body = join_rows(&content);
            let ghost before = blocks.deep_view();
            let block = CodeBlock {
                language: string_of(&language),
                content: string_of(&body),
                start_line,
            };
            blocks.push(block);
            proof {
                assert(blocks.deep_view() =~= before.push(block@));
            }
            in_block = false;
        } else {
            let ghost before = rows(content@);
            content.push(slice_of(&text_lines[i], 0, text_lines[i].len()));
            proof {
                let line = text_lines@[i as int]@;
                assert(line.subrange(0, line.len() as int) == line);
                assert(rows(content@) =~= before.push(line));
            }
        }
        i += 1;
    }
    proof {
        assert(rows(text_lines@).take(text_lines.len() as int) == rows(text_lines@));
    }
    blocks
}

/// What `serde_json` reports when the text is read as one JSON value:
/// `None` where it is one, else the text of the error.
pub uninterp spec fn json_failure(content: Seq<char>) -> Option<Seq<char>>;

/// What `serde_yaml` reports when the text is read as one YAML value:
/// `None` where it is one, else the text of the error.
pub uninterp spec fn yaml_failure(content: Seq<char>) -> Option<Seq<char>>;

/// Reads `content` as JSON.
///
/// Trusted: calls `serde_json::from_str::<serde_json::Value>` and hands back
/// the error's text where it fails. The parser reads nothing but its
/// argument, so the same text always gives the same outcome; that outcome is
/// named `json_failure`.
#[verifier::external_body]
fn read_json(content: &str) -> (out: Option<String>)
    ensures
        option_text(out) == json_failure(content@),
{
    match serde_json::from_str::<serde_json::Value>(content) {
        Ok(_) => None,
        Err(error) => Some(error.to_string()),
    }
}

/// Reads `content` as YAML.
///
/// Trusted: calls `serde_yaml::from_str::<serde_yaml::Value>` and hands back
/// the error's text where it fails. The parser reads nothing but its
/// argument, so the same text always gives the same outcome; that outcome is
/// named `yaml_failure`.
#[verifier::external_body]
fn read_yaml(content: &str) -> (out: Option<String>)
    ensures
        option_text(out) == yaml_failure(content@),
{
    match serde_yaml::from_str::<serde_yaml::Value>(content) {
        Ok(_) => None,
        Err(error) => Some(error.to_string()),
    }
}

/// The message for a block of `kind` at line `line` that failed with
/// `reason`.
pub open spec fn invalid_block(kind: Seq<char>, line: nat, reason: Seq<char>) -> Seq<char> {
    "invalid "@ + kind + " in code block at line "@ + decimal_digits(line) + ": "@ + reason
}

/// Builds the error for a block that failed its check.
pub fn invalid_block_error(kind: &str, line: usize, reason: &str) -> (out: KanbusError)
    ensures
        out@ == KanbusErrorView::IssueOperation(invalid_block(kind@, line as nat, reason@)),
{
    let mut message = chars_of("invalid ");
    push_str(&mut message, kind);
    push_str(&mut message, " in code block at line ");
    let digits = format_decimal(line as u64);
    push_all(&mut message, &digits);
    push_str(&mut message, ": ");
    push_str(&mut message, reason);
    KanbusError::IssueOperation(string_of(&message))
}

/// What a check's finding comes to for a block of `kind` at line `line`:
/// the block passes where nothing was found wrong, else it is rejected with
/// what was found.
pub open spec fn verdict_of(kind: Seq<char>, line: nat, failure: Option<Seq<char>>) -> Result<
    (),
    KanbusErrorView,
> {
    match failure {
        Some(reason) => Err(KanbusErrorView::IssueOperation(invalid_block(kind, line, reason))),
        None => Ok(()),
    }
}

/// Turns a check's finding into the outcome for the block.
pub fn block_verdict(kind: &str, line: usize, failure: Option<String>) -> (out: Result<
    (),
    KanbusError,
>)
    ensures
        unit_result(out) == verdict_of(kind@, line as nat, option_text(failure)),
{
    match failure {
        Some(reason) => Err(invalid_block_error(kind, line, reason.as_str())),
        None => Ok(()),
    }
}

/// Checks a block as JSON.
pub fn validate_json(block: &CodeBlock) -> (out: Result<(), KanbusError>)
    ensures
        unit_result(out) == verdict_of("json"@, block@.start_line, json_failure(block@.content)),
{
    block_verdict("json", block.start_line, read_json(block.content.as_str()))
}

/// Checks a block as YAML.
pub fn validate_yaml(block: &CodeBlock) -> (out: Result<(), KanbusError>)
    ensures
        unit_result(out) == verdict_of("yaml"@, block@.start_line, yaml_failure(block@.content)),
{
    block_verdict("yaml", block.start_line, read_yaml(block.content.as_str()))
}

/// Whether some line of `content`, white space aside, starts with `lead`.
pub open spec fn some_line_starts_with(content: Seq<char>, lead: Seq<char>) -> bool {
    exists|i: int|
        0 <= i < lines(content).len() && starts_with(trim(#[trigger] lines(content)[i]), lead)
}

/// What is wrong with `content` as Gherkin, if anything: it must not be
/// blank, must name a feature, and must hold at least one scenario.
pub open spec fn gherkin_failure(content: Seq<char>) -> Option<Seq<char>> {
    let body = trim(content);
    if body.len() == 0 {
        Some("empty content"@)
    } else if !some_line_starts_with(body, "Feature:"@) {
        Some("expected Feature keyword"@)
    } else if !(some_line_starts_with(body, "Scenario:"@) || some_line_starts_with(
        body,
        "Scenario Outline:"@,
    )) {
        Some("expected at least one Scenario"@)
    } else {
        None
    }
}

/// Whether some of `text_lines`, white space aside, starts with `lead`.
fn any_line_starts_with(text_lines: &Vec<Vec<char>>, lead: &str) -> (out: bool)
    ensures
        out == exists|i: int|
            0 <= i < text_lines.len() && starts_with(trim(#[trigger] rows(text_lines@)[i]), lead@),
{
    let wanted = chars_of(lead);
    let mut i: usize = 0;
    while i < text_lines.len()
        invariant
            i <= text_lines.len(),
            wanted@ == lead@,
            forall|j: int| 0 <= j < i ==> !starts_with(trim(#[trigger] rows(text_lines@)[j]), lead@),
        decreases text_lines.len() - i,
    {
        let trimmed = trim_chars(&text_lines[i]);
        if starts_with_chars(&trimmed, &wanted) {
            proof {
                assert(rows(text_lines@)[i as int] == text_lines@[i as int]@);
            }
            return true;
        }
        proof {
            assert(rows(text_lines@)[i as int] == text_lines@[i as int]@);
        }
        i += 1;
    }
    false
}

/// Finds what is wrong with `content` as Gherkin.
fn read_gherkin(content: &str) -> (out: Option<String>)
    ensures
        option_text(out) == gherkin_failure(content@),
{
    let all = chars_of(content);
    let body = trim_chars(&all);
    if body.len() == 0 {
        return Some(crate::text::owned("empty content"));
    }
    let body_lines = split_lines(&body);
    if !any_line_starts_with(&body_lines, "Feature:") {
        return Some(crate::text::owned("expected Feature keyword"));
    }
    if !(any_line_starts_with(&body_lines, "Scenario:") || any_line_starts_with(
        &body_lines,
        "Scenario Outline:",
    )) {
        return Some(crate::text::owned("expected at least one Scenario"));
    }
    None
}

/// Checks a block as Gherkin, lightly: its content must not be blank, must
/// name a feature, and must hold at least one scenario.
pub fn validate_gherkin(block: &CodeBlock) -> (out: Result<(), KanbusError>)
    ensures
        unit_result(out) == verdict_of(
            "gherkin"@,
            block@.start_line,
            gherkin_failure(block@.content),
        ),
{
    block_verdict("gherkin", block.start_line, read_gherkin(block.content.as_str()))
}

/// How a block's content is checked.
#[derive(Debug, Clone, Copy, PartialEq, Eq, Structural)]
pub enum BlockKind {
    Json,
    Yaml,
    Gherkin,
    /// A diagram that only the named outside tool can check.
    Diagram(DiagramTool),
    /// A language without a check.
    Other,
}

/// The outside tools that check diagrams.
#[derive(Debug, Clone, Copy, PartialEq, Eq, Structural)]
pub enum DiagramTool {
    Mermaid,
    PlantUml,
    D2,
}

impl DiagramTool {
    /// The program that checks diagrams of this kind.
    pub open spec fn program_name(self) -> Seq<char> {
        match self {
            DiagramTool::Mermaid => "mmdc"@,
            DiagramTool::PlantUml => "plantuml"@,
            DiagramTool::D2 => "d2"@,
        }
    }

    /// The language that this tool checks.
    pub open spec fn language_name(self) -> Seq<char> {
        match self {
            DiagramTool::Mermaid => "mermaid"@,
            DiagramTool::PlantUml => "plantuml"@,
            DiagramTool::D2 => "d2"@,
        }
    }

    /// How to install the tool.
    pub open spec fn install_text(self) -> Seq<char> {
        match self {
            DiagramTool::Mermaid => "npm install -g @mermaid-js/mermaid-cli"@,
            DiagramTool::PlantUml => "brew install plantuml (macOS) or apt install plantuml (Linux)"@,
            DiagramTool::D2 => "curl -fsSL https://d2lang.com/install.sh | sh -s --"@,
        }
    }

    /// The program that checks diagrams of this kind.
    pub fn program(&self) -> (out: &'static str)
        ensures
            out@ == self.program_name(),
    {
        match self {
            DiagramTool::Mermaid => "mmdc",
            DiagramTool::PlantUml => "plantuml",
            DiagramTool::D2 => "d2",
        }
    }

    /// The language that this tool checks.
    pub fn language(&self) -> (out: &'static str)
        ensures
            out@ == self.language_name(),
    {
        match self {
            DiagramTool::Mermaid => "mermaid",
            DiagramTool::PlantUml => "plantuml",
            DiagramTool::D2 => "d2",
        }
    }

    /// The extension of the file in which a diagram is handed to the tool.
    pub fn extension(&self) -> (out: &'static str)
        ensures
            out@ == (match self {
                DiagramTool::Mermaid => "mmd"@,
                DiagramTool::PlantUml => "puml"@,
                DiagramTool::D2 => "d2"@,
            }),
    {
        match self {
            DiagramTool::Mermaid => "mmd",
            DiagramTool::PlantUml => "puml",
            DiagramTool::D2 => "d2",
        }
    }

    /// How to install the tool.
    pub fn install_hint(&self) -> (out: &'static str)
        ensures
            out@ == self.install_text(),
    {
        match self {
            DiagramTool::Mermaid => "npm install -g @mermaid-js/mermaid-cli",
            DiagramTool::PlantUml => "brew install plantuml (macOS) or apt install plantuml (Linux)",
            DiagramTool::D2 => "curl -fsSL https://d2lang.com/install.sh | sh -s --",
        }
    }
}

/// The note given where a diagram cannot be checked for want of its tool.
pub open spec fn tool_missing_note(language: Seq<char>, line: nat, program: Seq<char>, hint: Seq<char>) -> Seq<
    char,
> {
    "Note: "@ + language + " code block at line "@ + decimal_digits(line) + " not validated ("@
        + program + " not installed). Install with: "@ + hint
}

/// What running a tool gave: whether it succeeded, and what it wrote to its
/// error stream.
pub struct ToolRun {
    pub succeeded: bool,
    pub errors: String,
}

/// What checking a diagram block with its tool comes to.
pub enum ToolVerdict {
    /// The block passes, and this note, if any, is shown.
    Passed(Option<String>),
    /// The block is rejected.
    Rejected(KanbusError),
}

/// Decides on a diagram block. A tool that is not installed lets the block
/// pass with a note; a tool that could not be run, or ran and succeeded, lets
/// it pass; a tool that ran and failed rejects it with what it wrote to its
/// error stream, white space aside. `installed` says whether the tool was
/// found, and `outcome` is what running it gave where it ran.
pub fn validate_external(
    block: &CodeBlock,
    tool: DiagramTool,
    installed: bool,
    outcome: Option<ToolRun>,
) -> (out: ToolVerdict)
    ensures
        !installed ==> (out matches ToolVerdict::Passed(Some(note)) && note@ == tool_missing_note(
            tool.language_name(),
            block@.start_line,
            tool.program_name(),
            tool.install_text(),
        )),
        installed && !(outcome matches Some(run) && !run.succeeded) ==> out matches ToolVerdict::Passed(
            None,
        ),
        installed ==> (outcome matches Some(run) ==> !run.succeeded ==> (out matches ToolVerdict::Rejected(
            e,
        ) && e@ == KanbusErrorView::IssueOperation(
            invalid_block(tool.language_name(), block@.start_line, trim(run.errors@)),
        ))),
{
    if !installed {
        let mut note = chars_of("Note: ");
        push_str(&mut note, tool.language());
        push_str(&mut note, " code block at line ");
        push_all(&mut note, &format_decimal(block.start_line as u64));
        push_str(&mut note, " not validated (");
        push_str(&mut note, tool.program());
        push_str(&mut note, " not installed). Install with: ");
        push_str(&mut note, tool.install_hint());
        return ToolVerdict::Passed(Some(string_of(&note)));
    }
    match outcome {
        Some(run) => {
            if run.succeeded {
                ToolVerdict::Passed(None)
            } else {
                let reason = string_of(&trim_chars(&chars_of(run.errors.as_str())));
                ToolVerdict::Rejected(
                    invalid_block_error(tool.language(), block.start_line, reason.as_str()),
                )
            }
        },
        None => ToolVerdict::Passed(None),
    }
}

/// The check that applies to a block of language `language`.
pub open spec fn kind_of(language: Seq<char>) -> BlockKind {
    if language == "json"@ {
        BlockKind::Json
    } else if language == "yaml"@ || language == "yml"@ {
        BlockKind::Yaml
    } else if language == "gherkin"@ || language == "feature"@ {
        BlockKind::Gherkin
    } else if language == "mermaid"@ {
        BlockKind::Diagram(DiagramTool::Mermaid)
    } else if language == "plantuml"@ {
        BlockKind::Diagram(DiagramTool::PlantUml)
    } else if language == "d2"@ {
        BlockKind::Diagram(DiagramTool::D2)
    } else {
        BlockKind::Other
    }
}

/// Executable form of [`kind_of`].
pub fn block_kind(language: &str) -> (out: BlockKind)
    ensures
        out == kind_of(language@),
{
    let name = chars_of(language);
    if same_chars(&name, &chars_of("json")) {
        BlockKind::Json
    } else if same_chars(&name, &chars_of("yaml")) || same_chars(&name, &chars_of("yml")) {
        BlockKind::Yaml
    } else if same_chars(&name, &chars_of("gherkin")) || same_chars(&name, &chars_of("feature")) {
        BlockKind::Gherkin
    } else if same_chars(&name, &chars_of("mermaid")) {
        BlockKind::Diagram(DiagramTool::Mermaid)
    } else if same_chars(&name, &chars_of("plantuml")) {
        BlockKind::Diagram(DiagramTool::PlantUml)
    } else if same_chars(&name, &chars_of("d2")) {
        BlockKind::Diagram(DiagramTool::D2)
    } else {
        BlockKind::Other
    }
}

/// The message with which `block` is rejected, if it is. Diagrams and
/// languages without a check are never rejected here.
pub open spec fn block_failure(block: CodeBlockView) -> Option<Seq<char>> {
    match kind_of(block.language) {
        BlockKind::Json => match json_failure(block.content) {
            Some(reason) => Some(invalid_block("json"@, block.start_line, reason)),
            None => None,
        },
        BlockKind::Yaml => match yaml_failure(block.content) {
            Some(reason) => Some(invalid_block("yaml"@, block.start_line, reason)),
            None => None,
        },
        BlockKind::Gherkin => match gherkin_failure(block.content) {
            Some(reason) => Some(invalid_block("gherkin"@, block.start_line, reason)),
            None => None,
        },
        _ => None,
    }
}

/// Checks one block.
pub fn validate_block(block: &CodeBlock) -> (out: Result<(), KanbusError>)
    ensures
        match block_failure(block@) {
            Some(message) => out matches Err(e) && e@ == KanbusErrorView::IssueOperation(message),
            None => out is Ok,
        },
{
    match block_kind(block.language.as_str()) {
        BlockKind::Json => validate_json(block),
        BlockKind::Yaml => validate_yaml(block),
        BlockKind::Gherkin => validate_gherkin(block),
        _ => Ok(()),
    }
}

/// The message of the first rejected block among `blocks`, if any is
/// rejected.
pub open spec fn first_failure(blocks: Seq<CodeBlockView>) -> Option<Seq<char>>
    decreases blocks.len(),
{
    if blocks.len() == 0 {
        None
    } else {
        match first_failure(blocks.drop_last()) {
            Some(message) => Some(message),
            None => block_failure(blocks.last()),
        }
    }
}

/// A failure among the first blocks is the failure of the whole.
proof fn lemma_first_failure_stays(blocks: Seq<CodeBlockView>, n: int)
    requires
        0 <= n <= blocks.len(),
        first_failure(blocks.take(n)) is Some,
    ensures
        first_failure(blocks) == first_failure(blocks.take(n)),
    decreases blocks.len() - n,
{
    if n == blocks.len() {
        assert(blocks.take(n) == blocks);
    } else {
        assert(blocks.drop_last().take(n) == blocks.take(n));
        lemma_first_failure_stays(blocks.drop_last(), n);
    }
}

/// Whether checking comes to a halt at `block`: it is rejected, or it is a
/// diagram, which only its tool can check.
pub open spec fn halts(block: CodeBlockView) -> bool {
    block_failure(block) is Some || kind_of(block.language) is Diagram
}

/// Whether `at` is the first place from `from` on at which checking halts.
pub open spec fn halts_first_at(blocks: Seq<CodeBlockView>, from: int, at: int) -> bool {
    &&& from <= at < blocks.len()
    &&& halts(blocks[at])
    &&& forall|j: int| from <= j < at ==> !halts(#[trigger] blocks[j])
}

/// Where checking blocks one after the other comes to a halt.
pub enum Halt {
    /// Every block passed.
    Finished,
    /// A block was rejected.
    Rejected(KanbusError),
    /// The block at this place is a diagram for the named tool; checking goes
    /// on behind it once the tool has passed it.
    Diagram(usize, DiagramTool),
}

/// Checks the blocks from place `from` on, in their order, up to the first
/// that is rejected or is a diagram.
pub fn check_until_diagram(blocks: &Vec<CodeBlock>, from: usize) -> (out: Halt)
    ensures
        match out {
            Halt::Finished => forall|j: int|
                from <= j < blocks.len() ==> !halts(#[trigger] blocks.deep_view()[j]),
            Halt::Rejected(error) => exists|at: int|
                halts_first_at(blocks.deep_view(), from as int, at) && block_failure(
                    #[trigger] blocks.deep_view()[at],
                ) is Some && error@ == KanbusErrorView::IssueOperation(
                    block_failure(blocks.deep_view()[at])->0,
                ),
            Halt::Diagram(at, tool) => halts_first_at(blocks.deep_view(), from as int, at as int)
                && kind_of(blocks.deep_view()[at as int].language) == BlockKind::Diagram(tool),
        },
{
    let mut i: usize = from;
    while i < blocks.len()
        invariant
            from <= i,
            forall|j: int| from <= j < i && j < blocks.len() ==> !halts(#[trigger] blocks.deep_view()[j]),
        decreases blocks.len() - i,
    {
        proof {
            assert(blocks.deep_view()[i as int] == blocks@[i as int]@);
        }
        match validate_block(&blocks[i]) {
            Ok(()) => {},
            Err(error) => {
                proof {
                    assert(halts_first_at(blocks.deep_view(), from as int, i as int));
                }
                return Halt::Rejected(error);
            },
        }
        match block_kind(blocks[i].language.as_str()) {
            BlockKind::Diagram(tool) => {
                return Halt::Diagram(i, tool);
            },
            _ => {},
        }
        i += 1;
    }
    Halt::Finished
}

/// Checks every JSON, YAML and Gherkin block of `text` and reports the first
/// that is rejected. Blocks in other languages pass; diagram blocks pass here
/// and are left to the tools that can check them.
pub fn validate_code_blocks(text: &str) -> (out: Result<(), KanbusError>)
    ensures
        match first_failure(code_blocks(text@)) {
            Some(message) => out matches Err(e) && e@ == KanbusErrorView::IssueOperation(message),
            None => out is Ok,
        },
{
    let blocks = extract_code_blocks(text);
    let mut i: usize = 0;
    proof {
        assert(blocks.deep_view().take(0) == Seq::<CodeBlockView>::empty());
    }
    while i < blocks.len()
        invariant
            i <= blocks.len(),
            blocks.deep_view() == code_blocks(text@),
            first_failure(blocks.deep_view().take(i as int)) is None,
        decreases blocks.len() - i,
    {
        proof {
            let next = blocks.deep_view().take(i + 1);
            assert(next.drop_last() == blocks.deep_view().take(i as int));
            assert(next.last() == blocks@[i as int]@);
        }
        match validate_block(&blocks[i]) {
            Ok(()) => {},
            Err(error) => {
                proof {
                    lemma_first_failure_stays(blocks.deep_view(), i + 1);
                }
                return Err(error);
            },
        }
        i += 1;
    }
    proof {
        assert(blocks.deep_view().take(blocks.len() as int) == blocks.deep_view());
    }
    Ok(())
}

} // verus!
