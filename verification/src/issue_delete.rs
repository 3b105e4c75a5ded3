//! Deleting an issue.

use crate::issue_lookup::IssueLookupResult;
use crate::notification_events::{NotificationEvent, NotificationEventView};
use vstd::prelude::*;

verus! {

/// What deleting an issue asks for: the file to remove, and the event to
/// tell once it is gone.
#[derive(Debug)]
pub struct Deletion {
    pub issue_path: String,
    pub event: NotificationEvent,
}

/// Plans the deletion of the issue that a lookup found.
pub fn delete_issue(lookup: IssueLookupResult) -> (out: Deletion)
    ensures
        out.issue_path@ == lookup.issue_path@,
        out.event@ == (NotificationEventView::IssueDeleted { issue_id: lookup.issue@.identifier }),
{
    Deletion {
        issue_path: lookup.issue_path,
        event: NotificationEvent::IssueDeleted { issue_id: lookup.issue.identifier },
    }
}

} // verus!
