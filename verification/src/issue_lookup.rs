//! Finding one issue among the project directories.

use crate::error::{KanbusError, KanbusErrorView};
use crate::file_io::{join_path, not_initialized_error, path_in};
use crate::models::IssueData;
use crate::text::{chars_of, join, join_strings, owned, push_str, string_of};
use vstd::prelude::*;

verus! {

/// Issue lookup result.
#[derive(Debug)]
pub struct IssueLookupResult {
    pub issue: IssueData,
    pub issue_path: String,
    pub project_dir: String,
}

/// An issue file whose name matches an abbreviated identifier.
#[derive(Debug)]
pub struct IssueMatch {
    pub identifier: String,
    pub issue_path: String,
    pub project_dir: String,
}

/// The identifiers of `matches`, in order.
pub open spec fn matched_identifiers(matches: Seq<IssueMatch>) -> Seq<Seq<char>> {
    Seq::new(matches.len(), |i: int| matches[i].identifier@)
}

/// The directories in which the issues of a project are looked for: the
/// shared issues, then the local ones where the project has a local
/// directory.
pub open spec fn search_paths(project_dir: Seq<char>, local_dir: Option<Seq<char>>) -> Seq<Seq<char>> {
    match local_dir {
        Some(local) => seq![path_in(project_dir, "issues"@), path_in(local, "issues"@)],
        None => seq![path_in(project_dir, "issues"@)],
    }
}

/// Return issue directories to search for a given project directory.
pub fn search_directories(project_dir: &str, local_dir: Option<&str>) -> (out: Vec<String>)
    ensures
        out.deep_view() == search_paths(
            project_dir@,
            match local_dir {
                Some(local) => Some(local@),
                None => None,
            },
        ),
{
    let mut out: Vec<String> = Vec::new();
    out.push(join_path(project_dir, "issues"));
    match local_dir {
        Some(local) => {
            out.push(join_path(local, "issues"));
            proof {
                assert(out.deep_view() =~= seq![
                    path_in(project_dir@, "issues"@),
                    path_in(local@, "issues"@),
                ]);
            }
        },
        None => {
            proof {
                assert(out.deep_view() =~= seq![path_in(project_dir@, "issues"@)]);
            }
        },
    }
    out
}

/// The error for an identifier that no issue matches.
pub open spec fn not_found_error() -> KanbusErrorView {
    KanbusErrorView::IssueOperation("not found"@)
}

/// The error for an identifier that several issues match.
pub open spec fn ambiguous_error(identifiers: Seq<Seq<char>>) -> KanbusErrorView {
    KanbusErrorView::IssueOperation("ambiguous identifier, matches: "@ + join(identifiers, ", "@))
}

/// Which issue an identifier stands for, given the number of project
/// directories and the issue files that match the identifier in them: the one
/// match, where there is exactly one.
pub fn load_issue_from_project(project_count: usize, matches: Vec<IssueMatch>) -> (out: Result<
    IssueMatch,
    KanbusError,
>)
    ensures
        project_count == 0 ==> (out matches Err(e) && e@ == not_initialized_error()),
        project_count > 0 && matches.len() == 0 ==> (out matches Err(e) && e@ == not_found_error()),
        project_count > 0 && matches.len() == 1 ==> (out matches Ok(found) && found == matches[0]),
        project_count > 0 && matches.len() > 1 ==> (out matches Err(e) && e@ == ambiguous_error(
            matched_identifiers(matches@),
        )),
{
    if project_count == 0 {
        return Err(KanbusError::IssueOperation(owned("project not initialized")));
    }
    if matches.len() == 0 {
        return Err(KanbusError::IssueOperation(owned("not found")));
    }
    if matches.len() == 1 {
        let mut matches = matches;
        let found = matches.pop().unwrap();
        return Ok(found);
    }
    let mut identifiers: Vec<String> = Vec::new();
    let mut i: usize = 0;
    while i < matches.len()
        invariant
            i <= matches.len(),
            identifiers.deep_view() == matched_identifiers(matches@).take(i as int),
        decreases matches.len() - i,
    {
        let ghost before = identifiers.deep_view();
        identifiers.push(matches[i].identifier.clone());
        proof {
            assert(identifiers.deep_view() =~= before.push(matches@[i as int].identifier@));
            assert(matched_identifiers(matches@).take(i + 1) =~= before.push(
                matches@[i as int].identifier@,
            ));
        }
        i += 1;
    }
    proof {
        assert(matched_identifiers(matches@).take(matches.len() as int) == matched_identifiers(
            matches@,
        ));
    }
    let listed = join_strings(&identifiers, ", ");
    let mut message = chars_of("ambiguous identifier, matches: ");
    push_str(&mut message, listed.as_str());
    Err(KanbusError::IssueOperation(string_of(&message)))
}

} // verus!
