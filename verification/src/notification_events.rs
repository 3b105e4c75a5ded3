//! Events told to connected consoles when issues change.

use crate::models::{option_text, IssueData, IssueView};
use crate::text::{chars_of, join, join_strings, push_str, string_of};
use vstd::prelude::*;

verus! {

/// Events that can be broadcast to connected clients for real-time updates.
#[derive(Debug)]
pub enum NotificationEvent {
    /// An issue was created.
    IssueCreated { issue_id: String, issue_data: IssueData },
    /// An issue was updated.
    IssueUpdated { issue_id: String, fields_changed: Vec<String>, issue_data: IssueData },
    /// An issue was deleted.
    IssueDeleted { issue_id: String },
    /// An issue was focused (for UI highlighting).
    IssueFocused { issue_id: String, user: Option<String> },
}

/// Mathematical content of [`NotificationEvent`].
pub enum NotificationEventView {
    IssueCreated { issue_id: Seq<char>, issue_data: IssueView },
    IssueUpdated { issue_id: Seq<char>, fields_changed: Seq<Seq<char>>, issue_data: IssueView },
    IssueDeleted { issue_id: Seq<char> },
    IssueFocused { issue_id: Seq<char>, user: Option<Seq<char>> },
}

impl View for NotificationEvent {
    type V = NotificationEventView;

    open spec fn view(&self) -> NotificationEventView {
        match self {
            NotificationEvent::IssueCreated { issue_id, issue_data } => {
                NotificationEventView::IssueCreated { issue_id: issue_id@, issue_data: issue_data@ }
            },
            NotificationEvent::IssueUpdated { issue_id, fields_changed, issue_data } => {
                NotificationEventView::IssueUpdated {
                    issue_id: issue_id@,
                    fields_changed: fields_changed.deep_view(),
                    issue_data: issue_data@,
                }
            },
            NotificationEvent::IssueDeleted { issue_id } => NotificationEventView::IssueDeleted {
                issue_id: issue_id@,
            },
            NotificationEvent::IssueFocused { issue_id, user } => {
                NotificationEventView::IssueFocused { issue_id: issue_id@, user: option_text(*user) }
            },
        }
    }
}

impl NotificationEventView {
    /// The identifier of the issue that the event is about.
    pub open spec fn issue_id(self) -> Seq<char> {
        match self {
            NotificationEventView::IssueCreated { issue_id, .. } => issue_id,
            NotificationEventView::IssueUpdated { issue_id, .. } => issue_id,
            NotificationEventView::IssueDeleted { issue_id } => issue_id,
            NotificationEventView::IssueFocused { issue_id, .. } => issue_id,
        }
    }

    /// The event in words.
    pub open spec fn description(self) -> Seq<char> {
        match self {
            NotificationEventView::IssueCreated { issue_id, .. } => "Issue "@ + issue_id
                + " created"@,
            NotificationEventView::IssueUpdated { issue_id, fields_changed, .. } => {
                if fields_changed.len() == 0 {
                    "Issue "@ + issue_id + " updated"@
                } else {
                    "Issue "@ + issue_id + " updated: "@ + join(fields_changed, ", "@)
                }
            },
            NotificationEventView::IssueDeleted { issue_id } => "Issue "@ + issue_id
                + " deleted"@,
            NotificationEventView::IssueFocused { issue_id, user } => match user {
                Some(name) => "Issue "@ + issue_id + " focused by "@ + name,
                None => "Issue "@ + issue_id + " focused"@,
            },
        }
    }
}

impl NotificationEvent {
    /// Get the issue ID associated with this event.
    pub fn issue_id(&self) -> (out: &str)
        ensures
            out@ == self@.issue_id(),
    {
        match self {
            NotificationEvent::IssueCreated { issue_id, .. } => issue_id.as_str(),
            NotificationEvent::IssueUpdated { issue_id, .. } => issue_id.as_str(),
            NotificationEvent::IssueDeleted { issue_id } => issue_id.as_str(),
            NotificationEvent::IssueFocused { issue_id, .. } => issue_id.as_str(),
        }
    }

    /// Get a human-readable description of this event.
    pub fn description(&self) -> (out: String)
        ensures
            out@ == self@.description(),
    {
        let mut text = chars_of("Issue ");
        push_str(&mut text, self.issue_id());
        match self {
            NotificationEvent::IssueCreated { .. } => {
                push_str(&mut text, " created");
            },
            NotificationEvent::IssueUpdated { fields_changed, .. } => {
                if fields_changed.len() == 0 {
                    push_str(&mut text, " updated");
                } else {
                    push_str(&mut text, " updated: ");
                    let fields = join_strings(fields_changed, ", ");
                    push_str(&mut text, fields.as_str());
                }
            },
            NotificationEvent::IssueDeleted { .. } => {
                push_str(&mut text, " deleted");
            },
            NotificationEvent::IssueFocused { user, .. } => match user {
                Some(name) => {
                    push_str(&mut text, " focused by ");
                    push_str(&mut text, name.as_str());
                },
                None => {
                    push_str(&mut text, " focused");
                },
            },
        }
        string_of(&text)
    }
}

} // verus!
