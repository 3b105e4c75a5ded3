//! Moving an issue between the shared and the local project directory.

use crate::error::{KanbusError, KanbusErrorView};
use crate::file_io::{join_path, path_in};
use crate::text::{chars_of, owned, push_str, string_of};
use vstd::prelude::*;

verus! {

/// The move of one issue file from one place to another.
#[derive(Debug)]
pub struct Transfer {
    pub source: String,
    pub target: String,
}

/// Mathematical content of [`Transfer`].
pub struct TransferView {
    pub source: Seq<char>,
    pub target: Seq<char>,
}

impl View for Transfer {
    type V = TransferView;

    open spec fn view(&self) -> TransferView {
        TransferView { source: self.source@, target: self.target@ }
    }
}

/// The file of the issue `identifier` below the project directory
/// `directory`: `issues/<identifier>.json`.
pub open spec fn issue_file_in(directory: Seq<char>, identifier: Seq<char>) -> Seq<char> {
    path_in(path_in(directory, "issues"@), identifier + ".json"@)
}

/// Builds the path of an issue's file below a project directory.
pub fn issue_file_path(directory: &str, identifier: &str) -> (out: String)
    ensures
        out@ == issue_file_in(directory@, identifier@),
{
    let issues = join_path(directory, "issues");
    let mut name = chars_of(identifier);
    push_str(&mut name, ".json");
    let file = string_of(&name);
    join_path(issues.as_str(), file.as_str())
}

/// The move of the issue `identifier` from the project directory `from` to
/// the project directory `to`, given whether its file lies in each of them:
/// it must lie in the first and must not lie in the second.
pub open spec fn transfer_of(
    from: Seq<char>,
    to: Seq<char>,
    identifier: Seq<char>,
    source_exists: bool,
    target_exists: bool,
) -> Result<TransferView, KanbusErrorView> {
    if !source_exists {
        Err(KanbusErrorView::IssueOperation("not found"@))
    } else if target_exists {
        Err(KanbusErrorView::IssueOperation("already exists"@))
    } else {
        Ok(
            TransferView {
                source: issue_file_in(from, identifier),
                target: issue_file_in(to, identifier),
            },
        )
    }
}

/// What a planned move comes to, by its content.
pub open spec fn transfer_result(out: Result<Transfer, KanbusError>) -> Result<
    TransferView,
    KanbusErrorView,
> {
    match out {
        Ok(transfer) => Ok(transfer@),
        Err(error) => Err(error@),
    }
}

/// Plans the move between two project directories.
fn plan_transfer(
    from: &str,
    to: &str,
    identifier: &str,
    source_exists: bool,
    target_exists: bool,
) -> (out: Result<Transfer, KanbusError>)
    ensures
        transfer_result(out) == transfer_of(from@, to@, identifier@, source_exists, target_exists),
{
    if !source_exists {
        return Err(KanbusError::IssueOperation(owned("not found")));
    }
    if target_exists {
        return Err(KanbusError::IssueOperation(owned("already exists")));
    }
    Ok(
        Transfer {
            source: issue_file_path(from, identifier),
            target: issue_file_path(to, identifier),
        },
    )
}

/// The move that promotes a local issue to the shared project directory.
/// `local_dir` is the local directory where the project has one;
/// `source_exists` and `target_exists` say whether the issue's file lies in
/// the local and in the shared directory.
pub fn promote_issue(
    project_dir: &str,
    local_dir: Option<&str>,
    identifier: &str,
    source_exists: bool,
    target_exists: bool,
) -> (out: Result<Transfer, KanbusError>)
    ensures
        transfer_result(out) == (match local_dir {
            None => Err(KanbusErrorView::IssueOperation("project-local not initialized"@)),
            Some(local) => transfer_of(
                local@,
                project_dir@,
                identifier@,
                source_exists,
                target_exists,
            ),
        }),
{
    match local_dir {
        None => Err(KanbusError::IssueOperation(owned("project-local not initialized"))),
        Some(local) => plan_transfer(local, project_dir, identifier, source_exists, target_exists),
    }
}

/// The move that takes a shared issue into the local project directory.
/// `source_exists` and `target_exists` say whether the issue's file lies in
/// the shared and in the local directory.
pub fn localize_issue(
    project_dir: &str,
    local_dir: &str,
    identifier: &str,
    source_exists: bool,
    target_exists: bool,
) -> (out: Result<Transfer, KanbusError>)
    ensures
        transfer_result(out) == transfer_of(
            project_dir@,
            local_dir@,
            identifier@,
            source_exists,
            target_exists,
        ),
{
    plan_transfer(project_dir, local_dir, identifier, source_exists, target_exists)
}

} // verus!
