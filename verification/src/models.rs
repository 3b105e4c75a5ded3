//! Issue records and project configuration.

use vstd::prelude::*;

verus! {

/// A point in time: seconds since the Unix epoch and the nanoseconds past
/// that second.
#[derive(Debug, Clone, Copy, PartialEq, Eq, Structural)]
pub struct Timestamp {
    pub seconds: i64,
    pub nanos: u32,
}

/// A link from one issue to another.
#[derive(Debug)]
pub struct DependencyLink {
    pub target: String,
    pub dependency_type: String,
}

/// Mathematical content of [`DependencyLink`].
pub struct DependencyLinkView {
    pub target: Seq<char>,
    pub dependency_type: Seq<char>,
}

impl View for DependencyLink {
    type V = DependencyLinkView;

    open spec fn view(&self) -> DependencyLinkView {
        DependencyLinkView { target: self.target@, dependency_type: self.dependency_type@ }
    }
}

impl DeepView for DependencyLink {
    type V = DependencyLinkView;

    open spec fn deep_view(&self) -> DependencyLinkView {
        self@
    }
}

impl Clone for DependencyLink {
    fn clone(&self) -> (out: Self)
        ensures
            out@ == self@,
    {
        DependencyLink {
            target: self.target.clone(),
            dependency_type: self.dependency_type.clone(),
        }
    }
}

/// A comment on an issue.
#[derive(Debug)]
pub struct IssueComment {
    pub id: Option<String>,
    pub author: String,
    pub text: String,
    pub created_at: Timestamp,
}

/// Mathematical content of [`IssueComment`].
pub struct IssueCommentView {
    pub id: Option<Seq<char>>,
    pub author: Seq<char>,
    pub text: Seq<char>,
    pub created_at: Timestamp,
}

impl View for IssueComment {
    type V = IssueCommentView;

    open spec fn view(&self) -> IssueCommentView {
        IssueCommentView {
            id: option_text(self.id),
            author: self.author@,
            text: self.text@,
            created_at: self.created_at,
        }
    }
}

impl DeepView for IssueComment {
    type V = IssueCommentView;

    open spec fn deep_view(&self) -> IssueCommentView {
        self@
    }
}

/// The text of an optional string.
pub open spec fn option_text(value: Option<String>) -> Option<Seq<char>> {
    match value {
        Some(text) => Some(text@),
        None => None,
    }
}

/// An optional text, or `fallback` in its place.
pub open spec fn or_text(a: Option<Seq<char>>, fallback: Seq<char>) -> Seq<char> {
    match a {
        Some(text) => text,
        None => fallback,
    }
}

/// A copy of an optional string.
pub fn clone_option(value: &Option<String>) -> (out: Option<String>)
    ensures
        option_text(out) == option_text(*value),
{
    match value {
        Some(text) => Some(text.clone()),
        None => None,
    }
}

/// A copy of a list of strings.
pub fn clone_strings(values: &Vec<String>) -> (out: Vec<String>)
    ensures
        out.deep_view() == values.deep_view(),
{
    let mut out: Vec<String> = Vec::new();
    let mut i: usize = 0;
    while i < values.len()
        invariant
            i <= values.len(),
            out.deep_view() == values.deep_view().take(i as int),
        decreases values.len() - i,
    {
        let ghost before = out.deep_view();
        out.push(values[i].clone());
        proof {
            assert(out.deep_view() =~= before.push(values@[i as int].deep_view()));
            assert(values.deep_view().take(i + 1) =~= before.push(values@[i as int].deep_view()));
        }
        i += 1;
    }
    proof {
        assert(values.deep_view().take(values.len() as int) == values.deep_view());
    }
    out
}

impl Clone for IssueComment {
    fn clone(&self) -> (out: Self)
        ensures
            out@ == self@,
    {
        IssueComment {
            id: clone_option(&self.id),
            author: self.author.clone(),
            text: self.text.clone(),
            created_at: self.created_at,
        }
    }
}

/// The value of an extension field: text, or any other JSON value held as
/// its JSON text.
#[derive(Debug)]
pub enum CustomValue {
    Text(String),
    Json(String),
}

/// Mathematical content of [`CustomValue`].
pub enum CustomValueView {
    Text(Seq<char>),
    Json(Seq<char>),
}

impl View for CustomValue {
    type V = CustomValueView;

    open spec fn view(&self) -> CustomValueView {
        match self {
            CustomValue::Text(t) => CustomValueView::Text(t@),
            CustomValue::Json(t) => CustomValueView::Json(t@),
        }
    }
}

impl Clone for CustomValue {
    fn clone(&self) -> (out: Self)
        ensures
            out@ == self@,
    {
        match self {
            CustomValue::Text(t) => CustomValue::Text(t.clone()),
            CustomValue::Json(t) => CustomValue::Json(t.clone()),
        }
    }
}

/// One entry of an issue's extension map.
#[derive(Debug)]
pub struct CustomField {
    pub key: String,
    pub value: CustomValue,
}

/// Mathematical content of [`CustomField`].
pub struct CustomFieldView {
    pub key: Seq<char>,
    pub value: CustomValueView,
}

impl View for CustomField {
    type V = CustomFieldView;

    open spec fn view(&self) -> CustomFieldView {
        CustomFieldView { key: self.key@, value: self.value@ }
    }
}

impl DeepView for CustomField {
    type V = CustomFieldView;

    open spec fn deep_view(&self) -> CustomFieldView {
        self@
    }
}

impl Clone for CustomField {
    fn clone(&self) -> (out: Self)
        ensures
            out@ == self@,
    {
        CustomField { key: self.key.clone(), value: self.value.clone() }
    }
}

/// One tracked work item.
#[derive(Debug)]
pub struct IssueData {
    pub identifier: String,
    pub title: String,
    pub description: String,
    pub issue_type: String,
    pub status: String,
    pub priority: i32,
    pub assignee: Option<String>,
    pub creator: Option<String>,
    pub parent: Option<String>,
    pub labels: Vec<String>,
    pub dependencies: Vec<DependencyLink>,
    pub comments: Vec<IssueComment>,
    pub created_at: Timestamp,
    pub updated_at: Timestamp,
    pub closed_at: Option<Timestamp>,
    pub custom: Vec<CustomField>,
}

/// Mathematical content of [`IssueData`].
pub struct IssueView {
    pub identifier: Seq<char>,
    pub title: Seq<char>,
    pub description: Seq<char>,
    pub issue_type: Seq<char>,
    pub status: Seq<char>,
    pub priority: i32,
    pub assignee: Option<Seq<char>>,
    pub creator: Option<Seq<char>>,
    pub parent: Option<Seq<char>>,
    pub labels: Seq<Seq<char>>,
    pub dependencies: Seq<DependencyLinkView>,
    pub comments: Seq<IssueCommentView>,
    pub created_at: Timestamp,
    pub updated_at: Timestamp,
    pub closed_at: Option<Timestamp>,
    pub custom: Seq<CustomFieldView>,
}

impl View for IssueData {
    type V = IssueView;

    open spec fn view(&self) -> IssueView {
        IssueView {
            identifier: self.identifier@,
            title: self.title@,
            description: self.description@,
            issue_type: self.issue_type@,
            status: self.status@,
            priority: self.priority,
            assignee: option_text(self.assignee),
            creator: option_text(self.creator),
            parent: option_text(self.parent),
            labels: self.labels.deep_view(),
            dependencies: self.dependencies.deep_view(),
            comments: self.comments.deep_view(),
            created_at: self.created_at,
            updated_at: self.updated_at,
            closed_at: self.closed_at,
            custom: self.custom.deep_view(),
        }
    }
}

impl DeepView for IssueData {
    type V = IssueView;

    open spec fn deep_view(&self) -> IssueView {
        self@
    }
}

/// A copy of a list of dependency links.
pub fn clone_links(values: &Vec<DependencyLink>) -> (out: Vec<DependencyLink>)
    ensures
        out.deep_view() == values.deep_view(),
{
    let mut out: Vec<DependencyLink> = Vec::new();
    let mut i: usize = 0;
    while i < values.len()
        invariant
            i <= values.len(),
            out.deep_view() == values.deep_view().take(i as int),
        decreases values.len() - i,
    {
        let ghost before = out.deep_view();
        out.push(values[i].clone());
        proof {
            assert(out.deep_view() =~= before.push(values@[i as int].deep_view()));
            assert(values.deep_view().take(i + 1) =~= before.push(values@[i as int].deep_view()));
        }
        i += 1;
    }
    proof {
        assert(values.deep_view().take(values.len() as int) == values.deep_view());
    }
    out
}

/// A copy of a list of comments.
pub fn clone_comments(values: &Vec<IssueComment>) -> (out: Vec<IssueComment>)
    ensures
        out.deep_view() == values.deep_view(),
{
    let mut out: Vec<IssueComment> = Vec::new();
    let mut i: usize = 0;
    while i < values.len()
        invariant
            i <= values.len(),
            out.deep_view() == values.deep_view().take(i as int),
        decreases values.len() - i,
    {
        let ghost before = out.deep_view();
        out.push(values[i].clone());
        proof {
            assert(out.deep_view() =~= before.push(values@[i as int].deep_view()));
            assert(values.deep_view().take(i + 1) =~= before.push(values@[i as int].deep_view()));
        }
        i += 1;
    }
    proof {
        assert(values.deep_view().take(values.len() as int) == values.deep_view());
    }
    out
}

/// A copy of an extension map.
pub fn clone_custom(values: &Vec<CustomField>) -> (out: Vec<CustomField>)
    ensures
        out.deep_view() == values.deep_view(),
{
    let mut out: Vec<CustomField> = Vec::new();
    let mut i: usize = 0;
    while i < values.len()
        invariant
            i <= values.len(),
            out.deep_view() == values.deep_view().take(i as int),
        decreases values.len() - i,
    {
        let ghost before = out.deep_view();
        out.push(values[i].clone());
        proof {
            assert(out.deep_view() =~= before.push(values@[i as int].deep_view()));
            assert(values.deep_view().take(i + 1) =~= before.push(values@[i as int].deep_view()));
        }
        i += 1;
    }
    proof {
        assert(values.deep_view().take(values.len() as int) == values.deep_view());
    }
    out
}

impl Clone for IssueData {
    fn clone(&self) -> (out: Self)
        ensures
            out@ == self@,
    {
        IssueData {
            identifier: self.identifier.clone(),
            title: self.title.clone(),
            description: self.description.clone(),
            issue_type: self.issue_type.clone(),
            status: self.status.clone(),
            priority: self.priority,
            assignee: clone_option(&self.assignee),
            creator: clone_option(&self.creator),
            parent: clone_option(&self.parent),
            labels: clone_strings(&self.labels),
            dependencies: clone_links(&self.dependencies),
            comments: clone_comments(&self.comments),
            created_at: self.created_at,
            updated_at: self.updated_at,
            closed_at: self.closed_at,
            custom: clone_custom(&self.custom),
        }
    }
}

/// One priority level of a project.
#[derive(Debug)]
pub struct PriorityDefinition {
    pub level: u8,
    pub name: String,
    pub color: Option<String>,
}

/// One status of a project.
#[derive(Debug)]
pub struct StatusDefinition {
    pub key: String,
    pub name: String,
    pub color: Option<String>,
}

/// One workflow: from each status, the statuses that may follow it.
#[derive(Debug)]
pub struct Workflow {
    pub name: String,
    pub transitions: Vec<StatusRule>,
}

/// The statuses that may follow one status.
#[derive(Debug)]
pub struct StatusRule {
    pub from: String,
    pub to: Vec<String>,
}

/// The color configured for one issue type.
#[derive(Debug)]
pub struct TypeColor {
    pub issue_type: String,
    pub color: String,
}

/// The settings of a project.
#[derive(Debug)]
pub struct ProjectConfiguration {
    pub project_directory: String,
    pub project_key: String,
    pub hierarchy: Vec<String>,
    pub types: Vec<String>,
    pub workflows: Vec<Workflow>,
    pub priorities: Vec<PriorityDefinition>,
    pub default_priority: u8,
    pub statuses: Vec<StatusDefinition>,
    pub type_colors: Vec<TypeColor>,
    pub console_port: Option<u16>,
}

/// What a project's settings say, as far as the rules of this library read
/// them.
pub struct ConfigurationView {
    pub project_directory: Seq<char>,
    pub hierarchy: Seq<Seq<char>>,
    pub types: Seq<Seq<char>>,
    pub workflow_names: Seq<Seq<char>>,
    pub priority_levels: Seq<u8>,
    pub default_priority: u8,
    pub console_port: Option<u16>,
}

/// The names of `workflows`, in order.
pub open spec fn workflow_names(workflows: Seq<Workflow>) -> Seq<Seq<char>> {
    Seq::new(workflows.len(), |i: int| workflows[i].name@)
}

/// The levels of `priorities`, in order.
pub open spec fn priority_levels(priorities: Seq<PriorityDefinition>) -> Seq<u8> {
    Seq::new(priorities.len(), |i: int| priorities[i].level)
}

impl View for ProjectConfiguration {
    type V = ConfigurationView;

    open spec fn view(&self) -> ConfigurationView {
        ConfigurationView {
            project_directory: self.project_directory@,
            hierarchy: self.hierarchy.deep_view(),
            types: self.types.deep_view(),
            workflow_names: workflow_names(self.workflows@),
            priority_levels: priority_levels(self.priorities@),
            default_priority: self.default_priority,
            console_port: self.console_port,
        }
    }
}

} // verus!
