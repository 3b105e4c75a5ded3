//! How one issue is shown to a person.

use crate::decimal::{decimal_digits, format_decimal, format_integer, signed_digits};
use crate::models::{
    DependencyLinkView, IssueCommentView, IssueData, IssueView, PriorityDefinition,
    ProjectConfiguration, StatusDefinition, TypeColor,
};
use crate::text::{
    chars_of, join, join_strings, owned, push_all, push_str, same_chars_ignoring_case,
    same_ignoring_case, same_text, slice_of, string_of,
};
use vstd::prelude::*;

verus! {

/// The sixteen colors of a terminal.
#[derive(Debug, Clone, Copy, PartialEq, Eq, Structural)]
pub enum AnsiColor {
    Black,
    Red,
    Green,
    Yellow,
    Blue,
    Magenta,
    Cyan,
    White,
    BrightBlack,
    BrightRed,
    BrightGreen,
    BrightYellow,
    BrightBlue,
    BrightMagenta,
    BrightCyan,
    BrightWhite,
}

/// The number that selects a color as foreground.
pub open spec fn foreground_code(color: AnsiColor) -> nat {
    match color {
        AnsiColor::Black => 30,
        AnsiColor::Red => 31,
        AnsiColor::Green => 32,
        AnsiColor::Yellow => 33,
        AnsiColor::Blue => 34,
        AnsiColor::Magenta => 35,
        AnsiColor::Cyan => 36,
        AnsiColor::White => 37,
        AnsiColor::BrightBlack => 90,
        AnsiColor::BrightRed => 91,
        AnsiColor::BrightGreen => 92,
        AnsiColor::BrightYellow => 93,
        AnsiColor::BrightBlue => 94,
        AnsiColor::BrightMagenta => 95,
        AnsiColor::BrightCyan => 96,
        AnsiColor::BrightWhite => 97,
    }
}

/// `text` in `color`: the escape sequence that selects the color, the text,
/// and the escape sequence that selects the default color again.
pub open spec fn colored(text: Seq<char>, color: AnsiColor) -> Seq<char> {
    seq!['\u{1b}', '['] + decimal_digits(foreground_code(color)) + seq!['m'] + text + seq![
        '\u{1b}',
        '[',
        '3',
        '9',
        'm',
    ]
}

/// Executable form of [`foreground_code`].
fn code_of(color: AnsiColor) -> (out: u64)
    ensures
        out == foreground_code(color),
{
    match color {
        AnsiColor::Black => 30,
        AnsiColor::Red => 31,
        AnsiColor::Green => 32,
        AnsiColor::Yellow => 33,
        AnsiColor::Blue => 34,
        AnsiColor::Magenta => 35,
        AnsiColor::Cyan => 36,
        AnsiColor::White => 37,
        AnsiColor::BrightBlack => 90,
        AnsiColor::BrightRed => 91,
        AnsiColor::BrightGreen => 92,
        AnsiColor::BrightYellow => 93,
        AnsiColor::BrightBlue => 94,
        AnsiColor::BrightMagenta => 95,
        AnsiColor::BrightCyan => 96,
        AnsiColor::BrightWhite => 97,
    }
}

/// Executable form of [`colored`].
pub fn colorize(text: &str, color: AnsiColor) -> (out: String)
    ensures
        out@ == colored(text@, color),
{
    let mut out: Vec<char> = Vec::new();
    out.push('\u{1b}');
    out.push('[');
    proof {
        assert(out@ =~= seq!['\u{1b}', '[']);
    }
    push_all(&mut out, &format_decimal(code_of(color)));
    out.push('m');
    push_str(&mut out, text);
    let ghost before = out@;
    out.push('\u{1b}');
    out.push('[');
    out.push('3');
    out.push('9');
    out.push('m');
    proof {
        assert(out@ =~= before + seq!['\u{1b}', '[', '3', '9', 'm']);
    }
    string_of(&out)
}

/// The color that `name` names, in any case of letters.
pub open spec fn color_named(name: Seq<char>) -> Option<AnsiColor> {
    if same_ignoring_case(name, "black"@) {
        Some(AnsiColor::Black)
    } else if same_ignoring_case(name, "red"@) {
        Some(AnsiColor::Red)
    } else if same_ignoring_case(name, "green"@) {
        Some(AnsiColor::Green)
    } else if same_ignoring_case(name, "yellow"@) {
        Some(AnsiColor::Yellow)
    } else if same_ignoring_case(name, "blue"@) {
        Some(AnsiColor::Blue)
    } else if same_ignoring_case(name, "magenta"@) {
        Some(AnsiColor::Magenta)
    } else if same_ignoring_case(name, "cyan"@) {
        Some(AnsiColor::Cyan)
    } else if same_ignoring_case(name, "white"@) {
        Some(AnsiColor::White)
    } else if same_ignoring_case(name, "bright_black"@) {
        Some(AnsiColor::BrightBlack)
    } else if same_ignoring_case(name, "bright_red"@) {
        Some(AnsiColor::BrightRed)
    } else if same_ignoring_case(name, "bright_green"@) {
        Some(AnsiColor::BrightGreen)
    } else if same_ignoring_case(name, "bright_yellow"@) {
        Some(AnsiColor::BrightYellow)
    } else if same_ignoring_case(name, "bright_blue"@) {
        Some(AnsiColor::BrightBlue)
    } else if same_ignoring_case(name, "bright_magenta"@) {
        Some(AnsiColor::BrightMagenta)
    } else if same_ignoring_case(name, "bright_cyan"@) {
        Some(AnsiColor::BrightCyan)
    } else if same_ignoring_case(name, "bright_white"@) {
        Some(AnsiColor::BrightWhite)
    } else {
        None
    }
}

/// Whether `name` is `word` in any case of letters.
fn is_word(name: &Vec<char>, word: &str) -> (out: bool)
    ensures
        out == same_ignoring_case(name@, word@),
{
    same_chars_ignoring_case(name, &chars_of(word))
}

/// Reads the name of a color.
pub fn parse_color(name: &str) -> (out: Option<AnsiColor>)
    ensures
        out == color_named(name@),
{
    let text = chars_of(name);
    if is_word(&text, "black") {
        Some(AnsiColor::Black)
    } else if is_word(&text, "red") {
        Some(AnsiColor::Red)
    } else if is_word(&text, "green") {
        Some(AnsiColor::Green)
    } else if is_word(&text, "yellow") {
        Some(AnsiColor::Yellow)
    } else if is_word(&text, "blue") {
        Some(AnsiColor::Blue)
    } else if is_word(&text, "magenta") {
        Some(AnsiColor::Magenta)
    } else if is_word(&text, "cyan") {
        Some(AnsiColor::Cyan)
    } else if is_word(&text, "white") {
        Some(AnsiColor::White)
    } else if is_word(&text, "bright_black") {
        Some(AnsiColor::BrightBlack)
    } else if is_word(&text, "bright_red") {
        Some(AnsiColor::BrightRed)
    } else if is_word(&text, "bright_green") {
        Some(AnsiColor::BrightGreen)
    } else if is_word(&text, "bright_yellow") {
        Some(AnsiColor::BrightYellow)
    } else if is_word(&text, "bright_blue") {
        Some(AnsiColor::BrightBlue)
    } else if is_word(&text, "bright_magenta") {
        Some(AnsiColor::BrightMagenta)
    } else if is_word(&text, "bright_cyan") {
        Some(AnsiColor::BrightCyan)
    } else if is_word(&text, "bright_white") {
        Some(AnsiColor::BrightWhite)
    } else {
        None
    }
}

/// The color of a status when the project configures none.
pub open spec fn default_status_color(status: Seq<char>) -> Option<AnsiColor> {
    if status == "open"@ {
        Some(AnsiColor::Cyan)
    } else if status == "in_progress"@ {
        Some(AnsiColor::Blue)
    } else if status == "blocked"@ {
        Some(AnsiColor::Red)
    } else if status == "closed"@ {
        Some(AnsiColor::Green)
    } else if status == "deferred"@ {
        Some(AnsiColor::Yellow)
    } else {
        None
    }
}

/// The color of a priority when the project configures none.
pub open spec fn default_priority_color(priority: i32) -> Option<AnsiColor> {
    if priority == 0 {
        Some(AnsiColor::Red)
    } else if priority == 1 {
        Some(AnsiColor::BrightRed)
    } else if priority == 2 {
        Some(AnsiColor::Yellow)
    } else if priority == 3 {
        Some(AnsiColor::Blue)
    } else if priority == 4 {
        Some(AnsiColor::White)
    } else {
        None
    }
}

/// The color of an issue type when the project configures none.
pub open spec fn default_type_color(issue_type: Seq<char>) -> Option<AnsiColor> {
    if issue_type == "initiative"@ {
        Some(AnsiColor::BrightBlue)
    } else if issue_type == "epic"@ {
        Some(AnsiColor::Magenta)
    } else if issue_type == "task"@ {
        Some(AnsiColor::Cyan)
    } else if issue_type == "sub-task"@ {
        Some(AnsiColor::BrightCyan)
    } else if issue_type == "bug"@ {
        Some(AnsiColor::Red)
    } else if issue_type == "story"@ {
        Some(AnsiColor::Yellow)
    } else if issue_type == "chore"@ {
        Some(AnsiColor::Green)
    } else if issue_type == "event"@ {
        Some(AnsiColor::BrightBlue)
    } else {
        None
    }
}

/// The color name that the first status with the key `status` configures,
/// where there is such a status and it configures one.
pub open spec fn configured_status_color(statuses: Seq<StatusDefinition>, status: Seq<char>) -> Option<
    Seq<char>,
>
    decreases statuses.len(),
{
    if statuses.len() == 0 {
        None
    } else if statuses[0].key@ == status {
        match statuses[0].color {
            Some(name) => Some(name@),
            None => None,
        }
    } else {
        configured_status_color(statuses.drop_first(), status)
    }
}

/// The level that a priority selects among the configured priorities: the
/// priority taken to eight bits.
pub open spec fn priority_level(priority: i32) -> u8 {
    (priority as int % 256) as u8
}

/// The color name that the configured priority of level `level` configures.
/// Of several priorities with one level the last one counts.
pub open spec fn configured_priority_color(priorities: Seq<PriorityDefinition>, level: u8) -> Option<
    Seq<char>,
>
    decreases priorities.len(),
{
    if priorities.len() == 0 {
        None
    } else if priorities.last().level == level {
        match priorities.last().color {
            Some(name) => Some(name@),
            None => None,
        }
    } else {
        configured_priority_color(priorities.drop_last(), level)
    }
}

/// The color name configured for the issue type `issue_type`. Of several
/// entries for one type the last one counts.
pub open spec fn configured_type_color(colors: Seq<TypeColor>, issue_type: Seq<char>) -> Option<
    Seq<char>,
>
    decreases colors.len(),
{
    if colors.len() == 0 {
        None
    } else if colors.last().issue_type@ == issue_type {
        Some(colors.last().color@)
    } else {
        configured_type_color(colors.drop_last(), issue_type)
    }
}

/// The color in which a status is shown.
pub open spec fn status_color_of(configuration: Option<ProjectConfiguration>, status: Seq<char>) -> Option<
    AnsiColor,
> {
    match configuration {
        Some(config) => match configured_status_color(config.statuses@, status) {
            Some(name) => color_named(name),
            None => default_status_color(status),
        },
        None => default_status_color(status),
    }
}

/// The color in which a priority is shown.
pub open spec fn priority_color_of(configuration: Option<ProjectConfiguration>, priority: i32) -> Option<
    AnsiColor,
> {
    match configuration {
        Some(config) => match configured_priority_color(
            config.priorities@,
            priority_level(priority),
        ) {
            Some(name) => color_named(name),
            None => default_priority_color(priority),
        },
        None => default_priority_color(priority),
    }
}

/// The color in which an issue type is shown.
pub open spec fn type_color_of(configuration: Option<ProjectConfiguration>, issue_type: Seq<char>) -> Option<
    AnsiColor,
> {
    match configuration {
        Some(config) => match configured_type_color(config.type_colors@, issue_type) {
            Some(name) => color_named(name),
            None => default_type_color(issue_type),
        },
        None => default_type_color(issue_type),
    }
}

/// The color of a status when the project configures none.
fn status_default(status: &str) -> (out: Option<AnsiColor>)
    ensures
        out == default_status_color(status@),
{
    if same_text(status, "open") {
        Some(AnsiColor::Cyan)
    } else if same_text(status, "in_progress") {
        Some(AnsiColor::Blue)
    } else if same_text(status, "blocked") {
        Some(AnsiColor::Red)
    } else if same_text(status, "closed") {
        Some(AnsiColor::Green)
    } else if same_text(status, "deferred") {
        Some(AnsiColor::Yellow)
    } else {
        None
    }
}

/// The color in which a status is shown.
pub fn status_color(status: &str, configuration: Option<&ProjectConfiguration>) -> (out: Option<
    AnsiColor,
>)
    ensures
        out == status_color_of(
            match configuration {
                Some(config) => Some(*config),
                None => None,
            },
            status@,
        ),
{
    match configuration {
        Some(config) => {
            let mut i: usize = 0;
            proof {
                assert(config.statuses@.skip(0) == config.statuses@);
            }
            while i < config.statuses.len()
                invariant
                    i <= config.statuses.len(),
                    (match configuration {
                        Some(c) => Some(*c),
                        None => None,
                    }) == Some(*config),
                    configured_status_color(config.statuses@, status@) == configured_status_color(
                        config.statuses@.skip(i as int),
                        status@,
                    ),
                decreases config.statuses.len() - i,
            {
                proof {
                    let rest = config.statuses@.skip(i as int);
                    assert(rest[0] == config.statuses@[i as int]);
                    assert(rest.drop_first() =~= config.statuses@.skip(i + 1));
                }
                if same_text(config.statuses[i].key.as_str(), status) {
                    return match &config.statuses[i].color {
                        Some(name) => parse_color(name.as_str()),
                        None => status_default(status),
                    };
                }
                i += 1;
            }
            proof {
                assert(config.statuses@.skip(config.statuses.len() as int) =~= Seq::<
                    StatusDefinition,
                >::empty());
            }
            status_default(status)
        },
        None => status_default(status),
    }
}

/// The color of a priority when the project configures none.
fn priority_default(priority: i32) -> (out: Option<AnsiColor>)
    ensures
        out == default_priority_color(priority),
{
    if priority == 0 {
        Some(AnsiColor::Red)
    } else if priority == 1 {
        Some(AnsiColor::BrightRed)
    } else if priority == 2 {
        Some(AnsiColor::Yellow)
    } else if priority == 3 {
        Some(AnsiColor::Blue)
    } else if priority == 4 {
        Some(AnsiColor::White)
    } else {
        None
    }
}

/// Executable form of [`priority_level`].
fn level_of(priority: i32) -> (out: u8)
    ensures
        out == priority_level(priority),
{
    let remainder: i32 = priority % 256;
    if remainder < 0 {
        (remainder + 256) as u8
    } else {
        remainder as u8
    }
}

/// The color in which a priority is shown.
pub fn priority_color(priority: i32, configuration: Option<&ProjectConfiguration>) -> (out: Option<
    AnsiColor,
>)
    ensures
        out == priority_color_of(
            match configuration {
                Some(config) => Some(*config),
                None => None,
            },
            priority,
        ),
{
    match configuration {
        Some(config) => {
            let level = level_of(priority);
            let mut i: usize = config.priorities.len();
            proof {
                assert(config.priorities@.take(i as int) == config.priorities@);
            }
            while i > 0
                invariant
                    i <= config.priorities.len(),
                    (match configuration {
                        Some(c) => Some(*c),
                        None => None,
                    }) == Some(*config),
                    level == priority_level(priority),
                    configured_priority_color(config.priorities@, level)
                        == configured_priority_color(config.priorities@.take(i as int), level),
                decreases i,
            {
                proof {
                    let upto = config.priorities@.take(i as int);
                    assert(upto.last() == config.priorities@[i - 1]);
                    assert(upto.drop_last() =~= config.priorities@.take(i - 1));
                }
                if config.priorities[i - 1].level == level {
                    return match &config.priorities[i - 1].color {
                        Some(name) => parse_color(name.as_str()),
                        None => priority_default(priority),
                    };
                }
                i -= 1;
            }
            priority_default(priority)
        },
        None => priority_default(priority),
    }
}

/// The color of an issue type when the project configures none.
fn type_default(issue_type: &str) -> (out: Option<AnsiColor>)
    ensures
        out == default_type_color(issue_type@),
{
    if same_text(issue_type, "initiative") {
        Some(AnsiColor::BrightBlue)
    } else if same_text(issue_type, "epic") {
        Some(AnsiColor::Magenta)
    } else if same_text(issue_type, "task") {
        Some(AnsiColor::Cyan)
    } else if same_text(issue_type, "sub-task") {
        Some(AnsiColor::BrightCyan)
    } else if same_text(issue_type, "bug") {
        Some(AnsiColor::Red)
    } else if same_text(issue_type, "story") {
        Some(AnsiColor::Yellow)
    } else if same_text(issue_type, "chore") {
        Some(AnsiColor::Green)
    } else if same_text(issue_type, "event") {
        Some(AnsiColor::BrightBlue)
    } else {
        None
    }
}

/// The color in which an issue type is shown.
pub fn type_color(issue_type: &str, configuration: Option<&ProjectConfiguration>) -> (out: Option<
    AnsiColor,
>)
    ensures
        out == type_color_of(
            match configuration {
                Some(config) => Some(*config),
                None => None,
            },
            issue_type@,
        ),
{
    match configuration {
        Some(config) => {
            let mut i: usize = config.type_colors.len();
            proof {
                assert(config.type_colors@.take(i as int) == config.type_colors@);
            }
            while i > 0
                invariant
                    i <= config.type_colors.len(),
                    (match configuration {
                        Some(c) => Some(*c),
                        None => None,
                    }) == Some(*config),
                    configured_type_color(config.type_colors@, issue_type@)
                        == configured_type_color(config.type_colors@.take(i as int), issue_type@),
                decreases i,
            {
                proof {
                    let upto = config.type_colors@.take(i as int);
                    assert(upto.last() == config.type_colors@[i - 1]);
                    assert(upto.drop_last() =~= config.type_colors@.take(i - 1));
                }
                if same_text(config.type_colors[i - 1].issue_type.as_str(), issue_type) {
                    return parse_color(config.type_colors[i - 1].color.as_str());
                }
                i -= 1;
            }
            type_default(issue_type)
        },
        None => type_default(issue_type),
    }
}

/// `text` dimmed where colors are in use.
pub open spec fn dimmed(text: Seq<char>, use_color: bool) -> Seq<char> {
    if use_color {
        colored(text, AnsiColor::BrightBlack)
    } else {
        text
    }
}

/// `value` in `color` where colors are in use and a color is given.
pub open spec fn painted(value: Seq<char>, color: Option<AnsiColor>, use_color: bool) -> Seq<char> {
    match color {
        Some(c) => if use_color {
            colored(value, c)
        } else {
            value
        },
        None => value,
    }
}

/// Executable form of [`dimmed`].
fn dim(text: &str, use_color: bool) -> (out: String)
    ensures
        out@ == dimmed(text@, use_color),
{
    if use_color {
        colorize(text, AnsiColor::BrightBlack)
    } else {
        owned(text)
    }
}

/// Executable form of [`painted`].
fn paint(value: &str, color: Option<AnsiColor>, use_color: bool) -> (out: String)
    ensures
        out@ == painted(value@, color, use_color),
{
    match color {
        Some(c) => {
            if use_color {
                colorize(value, c)
            } else {
                owned(value)
            }
        },
        None => owned(value),
    }
}

/// Executable form of [`signed_digits`] for a priority.
pub fn format_signed(n: i32) -> (out: String)
    ensures
        out@ == signed_digits(n as int),
{
    string_of(&format_integer(n as i64))
}

/// One row of the display: its label dimmed, a space, and its value in its
/// color. A value that stands for "none" is dimmed too.
pub open spec fn row(label: Seq<char>, value: Seq<char>, color: Option<AnsiColor>, muted: bool, use_color: bool) -> Seq<
    char,
> {
    dimmed(label, use_color) + " "@ + painted(
        value,
        if muted {
            Some(AnsiColor::BrightBlack)
        } else {
            color
        },
        use_color,
    )
}

/// The value shown for an optional text.
pub open spec fn or_dash(value: Option<Seq<char>>) -> Seq<char> {
    match value {
        Some(text) => text,
        None => "-"@,
    }
}

/// The eight rows at the head of the display.
pub open spec fn head_rows(
    issue: IssueView,
    configuration: Option<ProjectConfiguration>,
    use_color: bool,
    issue_key: Seq<char>,
) -> Seq<Seq<char>> {
    seq![
        row("ID:"@, issue_key, None, false, use_color),
        row("Title:"@, issue.title, None, false, use_color),
        row(
            "Type:"@,
            issue.issue_type,
            type_color_of(configuration, issue.issue_type),
            false,
            use_color,
        ),
        row(
            "Status:"@,
            issue.status,
            status_color_of(configuration, issue.status),
            false,
            use_color,
        ),
        row(
            "Priority:"@,
            signed_digits(issue.priority as int),
            priority_color_of(configuration, issue.priority),
            false,
            use_color,
        ),
        row("Assignee:"@, or_dash(issue.assignee), None, issue.assignee is None, use_color),
        row("Parent:"@, or_dash(issue.parent), None, issue.parent is None, use_color),
        row(
            "Labels:"@,
            if issue.labels.len() == 0 {
                "-"@
            } else {
                join(issue.labels, ", "@)
            },
            None,
            issue.labels.len() == 0,
            use_color,
        ),
    ]
}

/// The rows for the description: none where it is empty.
pub open spec fn description_rows(issue: IssueView, use_color: bool) -> Seq<Seq<char>> {
    if issue.description.len() == 0 {
        Seq::empty()
    } else {
        seq![dimmed("Description:"@, use_color), issue.description]
    }
}

/// The row for one dependency.
pub open spec fn dependency_row(link: DependencyLinkView) -> Seq<char> {
    "  "@ + link.dependency_type + ": "@ + link.target
}

/// The rows for the dependencies: none where there are none.
pub open spec fn dependency_rows(issue: IssueView, use_color: bool) -> Seq<Seq<char>> {
    if issue.dependencies.len() == 0 {
        Seq::empty()
    } else {
        seq![dimmed("Dependencies:"@, use_color)] + Seq::new(
            issue.dependencies.len(),
            |i: int| dependency_row(issue.dependencies[i]),
        )
    }
}

/// The first six characters of a comment's identifier, or nothing where it
/// has none.
pub open spec fn comment_tag(comment: IssueCommentView) -> Seq<char> {
    match comment.id {
        Some(id) => if id.len() > 6 {
            id.take(6)
        } else {
            id
        },
        None => Seq::empty(),
    }
}

/// The row for one comment.
pub open spec fn comment_row(comment: IssueCommentView, use_color: bool) -> Seq<char> {
    let author = if comment.author.len() == 0 {
        "unknown"@
    } else {
        comment.author
    };
    let tag = comment_tag(comment);
    if tag.len() == 0 {
        "  "@ + dimmed(author + ":"@, use_color) + " "@ + comment.text
    } else {
        "  ["@ + tag + "] "@ + dimmed(author + ":"@, use_color) + " "@ + comment.text
    }
}

/// The rows for the comments: none where there are none.
pub open spec fn comment_rows(issue: IssueView, use_color: bool) -> Seq<Seq<char>> {
    if issue.comments.len() == 0 {
        Seq::empty()
    } else {
        seq![dimmed("Comments:"@, use_color)] + Seq::new(
            issue.comments.len(),
            |i: int| comment_row(issue.comments[i], use_color),
        )
    }
}

/// The display of an issue: the head rows, then description, dependencies
/// and comments as far as the issue has them, one row to a line.
pub open spec fn display_of(
    issue: IssueView,
    configuration: Option<ProjectConfiguration>,
    use_color: bool,
    issue_key: Seq<char>,
) -> Seq<char> {
    join(
        head_rows(issue, configuration, use_color, issue_key) + description_rows(issue, use_color)
            + dependency_rows(issue, use_color) + comment_rows(issue, use_color),
        seq!['\n'],
    )
}

/// Builds one row.
fn make_row(label: &str, value: &str, color: Option<AnsiColor>, muted: bool, use_color: bool) -> (out:
    String)
    ensures
        out@ == row(label@, value@, color, muted, use_color),
{
    let shade = if muted {
        Some(AnsiColor::BrightBlack)
    } else {
        color
    };
    let mut text = chars_of(dim(label, use_color).as_str());
    push_str(&mut text, " ");
    push_str(&mut text, paint(value, shade, use_color).as_str());
    string_of(&text)
}

/// The value shown for an optional text.
fn dash_or(value: &Option<String>) -> (out: String)
    ensures
        out@ == or_dash(crate::models::option_text(*value)),
{
    match value {
        Some(text) => text.clone(),
        None => owned("-"),
    }
}

/// Appends the rows for the comments.
fn push_comment_rows(lines: &mut Vec<String>, issue: &IssueData, use_color: bool)
    ensures
        final(lines).deep_view() == old(lines).deep_view() + comment_rows(issue@, use_color),
{
    let ghost start = lines.deep_view();
    if issue.comments.len() == 0 {
        proof {
            assert(start + Seq::<Seq<char>>::empty() == start);
        }
        return;
    }
    let head = dim("Comments:", use_color);
    lines.push(head);
    proof {
        assert(lines.deep_view() =~= start.push(head@));
    }
    let ghost rows = comment_rows(issue@, use_color);
    let mut i: usize = 0;
    while i < issue.comments.len()
        invariant
            i <= issue.comments.len(),
            issue.comments.len() > 0,
            rows == comment_rows(issue@, use_color),
            lines.deep_view() == start + rows.take(i + 1),
        decreases issue.comments.len() - i,
    {
        let comment = &issue.comments[i];
        let ghost view = issue@.comments[i as int];
        proof {
            assert(view == comment@);
        }
        let mut named: Vec<char> = if comment.author.as_str().unicode_len() == 0 {
            chars_of("unknown")
        } else {
            chars_of(comment.author.as_str())
        };
        named.push(':');
        proof {
            reveal_strlit(":");
            assert(":"@ =~= seq![':']);
        }
        let speaker = dim(string_of(&named).as_str(), use_color);
        let tag: Vec<char> = match &comment.id {
            Some(id) => {
                let whole = chars_of(id.as_str());
                if whole.len() > 6 {
                    let cut = slice_of(&whole, 0, 6);
                    proof {
                        assert(whole@.subrange(0, 6) == whole@.take(6));
                    }
                    cut
                } else {
                    whole
                }
            },
            None => Vec::new(),
        };
        let mut line = chars_of("  ");
        if tag.len() > 0 {
            push_str(&mut line, "[");
            push_all(&mut line, &tag);
            push_str(&mut line, "] ");
            proof {
                assert(line@ =~= "  ["@ + tag@ + "] "@) by {
                    reveal_strlit("  ");
                    reveal_strlit("[");
                    reveal_strlit("  [");
                    assert("  "@ + "["@ =~= "  ["@);
                }
            }
        }
        push_str(&mut line, speaker.as_str());
        push_str(&mut line, " ");
        push_str(&mut line, comment.text.as_str());
        let ghost before = lines.deep_view();
        let text = string_of(&line);
        lines.push(text);
        proof {
            assert(text@ =~= comment_row(view, use_color));
            assert(rows[i + 1] == comment_row(view, use_color));
            assert(lines.deep_view() =~= before.push(text@));
            assert(rows.take(i + 2) =~= rows.take(i + 1).push(text@));
        }
        i += 1;
    }
    proof {
        assert(rows.take(issue.comments.len() + 1) == rows);
    }
}

/// Appends the rows for the dependencies.
fn push_dependency_rows(lines: &mut Vec<String>, issue: &IssueData, use_color: bool)
    ensures
        final(lines).deep_view() == old(lines).deep_view() + dependency_rows(issue@, use_color),
{
    let ghost start = lines.deep_view();
    if issue.dependencies.len() == 0 {
        proof {
            assert(start + Seq::<Seq<char>>::empty() == start);
        }
        return;
    }
    let head = dim("Dependencies:", use_color);
    lines.push(head);
    proof {
        assert(lines.deep_view() =~= start.push(head@));
    }
    let ghost rows = dependency_rows(issue@, use_color);
    let mut i: usize = 0;
    while i < issue.dependencies.len()
        invariant
            i <= issue.dependencies.len(),
            issue.dependencies.len() > 0,
            rows == dependency_rows(issue@, use_color),
            lines.deep_view() == start + rows.take(i + 1),
        decreases issue.dependencies.len() - i,
    {
        let link = &issue.dependencies[i];
        proof {
            assert(issue@.dependencies[i as int] == link@);
        }
        let mut line = chars_of("  ");
        push_str(&mut line, link.dependency_type.as_str());
        push_str(&mut line, ": ");
        push_str(&mut line, link.target.as_str());
        let ghost before = lines.deep_view();
        let text = string_of(&line);
        lines.push(text);
        proof {
            assert(rows[i + 1] == dependency_row(link@));
            assert(lines.deep_view() =~= before.push(text@));
            assert(rows.take(i + 2) =~= rows.take(i + 1).push(text@));
        }
        i += 1;
    }
    proof {
        assert(rows.take(issue.dependencies.len() + 1) == rows);
    }
}

/// Format an issue for human-readable display. `issue_key` is the issue's
/// identifier in the form in which the caller shows identifiers.
pub fn format_issue_for_display(
    issue: &IssueData,
    configuration: Option<&ProjectConfiguration>,
    use_color: bool,
    issue_key: &str,
) -> (out: String)
    ensures
        out@ == display_of(
            issue@,
            match configuration {
                Some(config) => Some(*config),
                None => None,
            },
            use_color,
            issue_key@,
        ),
{
    let ghost config = match configuration {
        Some(c) => Some(*c),
        None => None,
    };
    let labels = if issue.labels.len() == 0 {
        owned("-")
    } else {
        join_strings(&issue.labels, ", ")
    };
    let mut lines: Vec<String> = Vec::new();
    lines.push(make_row("ID:", issue_key, None, false, use_color));
    lines.push(make_row("Title:", issue.title.as_str(), None, false, use_color));
    lines.push(
        make_row(
            "Type:",
            issue.issue_type.as_str(),
            type_color(issue.issue_type.as_str(), configuration),
            false,
            use_color,
        ),
    );
    lines.push(
        make_row(
            "Status:",
            issue.status.as_str(),
            status_color(issue.status.as_str(), configuration),
            false,
            use_color,
        ),
    );
    lines.push(
        make_row(
            "Priority:",
            format_signed(issue.priority).as_str(),
            priority_color(issue.priority, configuration),
            false,
            use_color,
        ),
    );
    lines.push(
        make_row(
            "Assignee:",
            dash_or(&issue.assignee).as_str(),
            None,
            issue.assignee.is_none(),
            use_color,
        ),
    );
    lines.push(
        make_row("Parent:", dash_or(&issue.parent).as_str(), None, issue.parent.is_none(), use_color),
    );
    lines.push(make_row("Labels:", labels.as_str(), None, issue.labels.len() == 0, use_color));
    proof {
        assert(lines.deep_view() =~= head_rows(issue@, config, use_color, issue_key@));
    }
    if issue.description.as_str().unicode_len() > 0 {
        let ghost before = lines.deep_view();
        lines.push(dim("Description:", use_color));
        lines.push(issue.description.clone());
        proof {
            assert(lines.deep_view() =~= before + description_rows(issue@, use_color));
        }
    } else {
        proof {
            assert(lines.deep_view() + description_rows(issue@, use_color) == lines.deep_view());
        }
    }
    push_dependency_rows(&mut lines, issue, use_color);
    push_comment_rows(&mut lines, issue, use_color);
    proof {
        reveal_strlit("\n");
        assert("\n"@ =~= seq!['\n']);
    }
    join_strings(&lines, "\n")
}

} // verus!
