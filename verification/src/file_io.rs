//! Locating the project directory and building paths inside it.

use crate::error::{text_result, KanbusError, KanbusErrorView};
use crate::order::strictly_ascending;
use crate::text::{chars_of, owned, push_str, same_text, string_of};
use crate::text_map::TextMap;
use vstd::prelude::*;

verus! {

/// The path of `name` inside the directory `base`.
pub open spec fn path_in(base: Seq<char>, name: Seq<char>) -> Seq<char> {
    if base.len() == 0 {
        name
    } else if base.last() == '/' {
        base + name
    } else {
        base.push('/') + name
    }
}

/// Joins a relative `name` onto the directory `base`.
pub fn join_path(base: &str, name: &str) -> (out: String)
    ensures
        out@ == path_in(base@, name@),
{
    let mut path = chars_of(base);
    if path.len() > 0 && path[path.len() - 1] != '/' {
        path.push('/');
    }
    push_str(&mut path, name);
    string_of(&path)
}

/// The root used for a command run in `cwd`: the directory itself.
pub fn resolve_root(cwd: &str) -> (out: String)
    ensures
        out@ == cwd@,
{
    owned(cwd)
}

/// The error for a root under which no project directory was found.
pub open spec fn not_initialized_error() -> KanbusErrorView {
    KanbusErrorView::IssueOperation("project not initialized"@)
}

/// The error for a root under which several project directories were found.
pub open spec fn multiple_projects_error() -> KanbusErrorView {
    KanbusErrorView::IssueOperation("multiple projects found"@)
}

/// The one project directory among `discovered`: none found is an error,
/// and so is more than one; a directory found several times counts once.
pub open spec fn project_among(discovered: Seq<Seq<char>>) -> Result<Seq<char>, KanbusErrorView> {
    if discovered.len() == 0 {
        Err(not_initialized_error())
    } else if forall|i: int| 0 <= i < discovered.len() ==> #[trigger] discovered[i] == discovered[0] {
        Ok(discovered[0])
    } else {
        Err(multiple_projects_error())
    }
}

/// The one project directory among those discovered under a root.
/// `discovered` lists every directory that discovery came upon, possibly
/// more than once.
pub fn load_project_directory(discovered: &Vec<String>) -> (out: Result<String, KanbusError>)
    ensures
        text_result(out) == project_among(discovered.deep_view()),
{
    if discovered.len() == 0 {
        return Err(KanbusError::IssueOperation(owned("project not initialized")));
    }
    let mut i: usize = 1;
    while i < discovered.len()
        invariant
            1 <= i <= discovered.len(),
            forall|j: int|
                0 <= j < i ==> #[trigger] discovered.deep_view()[j] == discovered.deep_view()[0],
        decreases discovered.len() - i,
    {
        if !same_text(discovered[i].as_str(), discovered[0].as_str()) {
            proof {
                assert(discovered.deep_view()[i as int] != discovered.deep_view()[0]);
            }
            return Err(KanbusError::IssueOperation(owned("multiple projects found")));
        }
        i += 1;
    }
    Ok(discovered[0].clone())
}

/// Every project directory among those discovered, each once, in ascending
/// order.
pub fn discover_project_directories(found: &Vec<String>) -> (out: Vec<String>)
    ensures
        strictly_ascending(out.deep_view()),
        forall|path: Seq<char>| #[trigger]
            out.deep_view().contains(path) <==> found.deep_view().contains(path),
{
    let mut distinct: TextMap<()> = TextMap::new();
    let mut i: usize = 0;
    while i < found.len()
        invariant
            i <= found.len(),
            forall|path: Seq<char>| #[trigger]
                distinct@.dom().contains(path) <==> found.deep_view().take(i as int).contains(path),
        decreases found.len() - i,
    {
        let ghost seen = found.deep_view().take(i as int);
        let ghost next = found.deep_view().take(i + 1);
        proof {
            assert(next == seen.push(found@[i as int]@));
            assert forall|path: Seq<char>| #[trigger]
                next.contains(path) <==> seen.contains(path) || path == found@[i as int]@ by {
                if seen.contains(path) {
                    let at = seen.index_of(path);
                    assert(next[at] == path);
                }
                if next.contains(path) && path != found@[i as int]@ {
                    let at = next.index_of(path);
                    assert(seen[at] == path);
                }
                assert(next[i as int] == found@[i as int]@);
            }
        }
        distinct.insert(found[i].clone(), ());
        i += 1;
    }
    proof {
        assert(found.deep_view().take(found.len() as int) == found.deep_view());
    }
    let mut out: Vec<String> = Vec::new();
    let count = distinct.len();
    let mut k: usize = 0;
    while k < count
        invariant
            k <= count,
            count == distinct.entries().len(),
            out.deep_view() == distinct.keys().take(k as int),
        decreases count - k,
    {
        let ghost before = out.deep_view();
        let key = distinct.key_at(k);
        out.push(key.clone());
        proof {
            assert(out.deep_view() =~= before.push(key@));
            assert(distinct.keys().take(k + 1) =~= before.push(key@));
        }
        k += 1;
    }
    proof {
        assert(distinct.keys().take(count as int) == distinct.keys());
        assert forall|path: Seq<char>| #[trigger]
            out.deep_view().contains(path) <==> found.deep_view().contains(path) by {
            assert(distinct@.dom().contains(path) <==> distinct.keys().contains(path));
        }
    }
    out
}

/// The directory that holds issues kept out of the shared project: the
/// sibling `project-local` of the project directory, where it exists.
/// `parent` is the directory above the project directory, if it has one, and
/// `is_directory` says whether the sibling is a directory on disk.
pub fn find_project_local_directory(parent: Option<&str>, is_directory: bool) -> (out: Option<
    String,
>)
    ensures
        out is Some <==> parent is Some && is_directory,
        out matches Some(path) ==> path@ == path_in(parent->0@, "project-local"@),
{
    match parent {
        Some(above) => {
            if is_directory {
                Some(join_path(above, "project-local"))
            } else {
                None
            }
        },
        None => None,
    }
}

/// The error for a directory that is not inside a git repository.
pub open spec fn not_a_repository_error() -> KanbusErrorView {
    KanbusErrorView::Initialization("not a git repository"@)
}

/// Whether git's answer says that the directory is inside a work tree: the
/// command succeeded and printed `true`, white space aside.
pub open spec fn inside_work_tree(succeeded: bool, output: Seq<char>) -> bool {
    succeeded && crate::text::trim(output) == "true"@
}

/// Reads git's answer to the question whether a directory is inside a work
/// tree.
pub fn ensure_git_repository(succeeded: bool, output: &str) -> (out: Result<(), KanbusError>)
    ensures
        crate::error::unit_result(out) == (if inside_work_tree(succeeded, output@) {
            Ok::<(), KanbusErrorView>(())
        } else {
            Err(not_a_repository_error())
        }),
{
    if succeeded {
        let answer = crate::text::trim_chars(&chars_of(output));
        if crate::text::same_chars(&answer, &chars_of("true")) {
            return Ok(());
        }
    }
    Err(KanbusError::Initialization(owned("not a git repository")))
}

/// Whether some line of `contents`, white space aside, is `entry`.
pub open spec fn lists_entry(contents: Seq<char>, entry: Seq<char>) -> bool {
    exists|i: int|
        0 <= i < crate::lines::lines(contents).len() && crate::text::trim(
            #[trigger] crate::lines::lines(contents)[i],
        ) == entry
}

/// `contents` with `entry` on a further line of its own.
pub open spec fn with_entry(contents: Seq<char>, entry: Seq<char>) -> Seq<char> {
    (if contents.len() > 0 && contents.last() != '\n' {
        contents.push('\n')
    } else {
        contents
    }) + entry.push('\n')
}

/// What an ignore file has to hold from now on so that it lists `entry`:
/// `None` where it lists the entry already.
pub fn ensure_gitignore_entry(existing: &str, entry: &str) -> (out: Option<String>)
    ensures
        match out {
            None => lists_entry(existing@, entry@),
            Some(updated) => !lists_entry(existing@, entry@) && updated@ == with_entry(
                existing@,
                entry@,
            ),
        },
{
    let contents = chars_of(existing);
    let wanted = chars_of(entry);
    let rows = crate::lines::split_lines(&contents);
    let mut i: usize = 0;
    while i < rows.len()
        invariant
            i <= rows.len(),
            crate::lines::rows(rows@) == crate::lines::lines(existing@),
            wanted@ == entry@,
            forall|j: int|
                0 <= j < i ==> crate::text::trim(#[trigger] crate::lines::lines(existing@)[j])
                    != entry@,
        decreases rows.len() - i,
    {
        proof {
            assert(crate::lines::rows(rows@)[i as int] == rows@[i as int]@);
        }
        let bare = crate::text::trim_chars(&rows[i]);
        if crate::text::same_chars(&bare, &wanted) {
            return None;
        }
        i += 1;
    }
    let mut updated = contents;
    if updated.len() > 0 && updated[updated.len() - 1] != '\n' {
        updated.push('\n');
    }
    crate::text::push_all(&mut updated, &wanted);
    updated.push('\n');
    proof {
        assert(updated@ =~= with_entry(existing@, entry@));
    }
    Some(string_of(&updated))
}

/// The path that one line of a projects file names: the line itself where it
/// is absolute, else the line below the directory of the file.
pub open spec fn named_path(parent: Seq<char>, line: Seq<char>) -> Seq<char> {
    if line.len() > 0 && line[0] == '/' {
        line
    } else {
        path_in(parent, line)
    }
}

/// The paths that the lines of a projects file name, blank lines aside.
pub open spec fn named_paths(parent: Seq<char>, text_lines: Seq<Seq<char>>) -> Seq<Seq<char>>
    decreases text_lines.len(),
{
    if text_lines.len() == 0 {
        Seq::empty()
    } else {
        let line = crate::text::trim(text_lines.last());
        if line.len() == 0 {
            named_paths(parent, text_lines.drop_last())
        } else {
            named_paths(parent, text_lines.drop_last()).push(named_path(parent, line))
        }
    }
}

/// The project directories that a projects file names, in the order of its
/// lines. `parent` is the directory in which the file lies.
pub fn discover_taskulus_projects(contents: &str, parent: &str) -> (out: Vec<String>)
    ensures
        out.deep_view() == named_paths(parent@, crate::lines::lines(contents@)),
{
    let text = chars_of(contents);
    let rows = crate::lines::split_lines(&text);
    let mut out: Vec<String> = Vec::new();
    let mut i: usize = 0;
    proof {
        assert(crate::lines::rows(rows@).take(0) == Seq::<Seq<char>>::empty());
        assert(out.deep_view() =~= Seq::<Seq<char>>::empty());
    }
    while i < rows.len()
        invariant
            i <= rows.len(),
            out.deep_view() == named_paths(parent@, crate::lines::rows(rows@).take(i as int)),
        decreases rows.len() - i,
    {
        proof {
            let next = crate::lines::rows(rows@).take(i + 1);
            assert(next.drop_last() == crate::lines::rows(rows@).take(i as int));
            assert(next.last() == rows@[i as int]@);
        }
        let line = crate::text::trim_chars(&rows[i]);
        if line.len() > 0 {
            let path = if line[0] == '/' {
                string_of(&line)
            } else {
                join_path(parent, string_of(&line).as_str())
            };
            let ghost before = out.deep_view();
            out.push(path);
            proof {
                assert(out.deep_view() =~= before.push(named_path(parent@, line@)));
            }
        }
        i += 1;
    }
    proof {
        assert(crate::lines::rows(rows@).take(rows.len() as int) == crate::lines::rows(rows@));
    }
    out
}

/// The error for a path of a projects file that is no directory.
pub fn missing_project_error(path: &str) -> (out: KanbusError)
    ensures
        out@ == KanbusErrorView::IssueOperation("taskulus path not found: "@ + path@),
{
    let mut message = chars_of("taskulus path not found: ");
    push_str(&mut message, path);
    KanbusError::IssueOperation(string_of(&message))
}

/// What making the local project directory asks for: the directory itself,
/// the directory of its issues, which is made with all that lies above it,
/// and the directory whose ignore file has to list `project-local/`.
#[derive(Debug)]
pub struct LocalDirectoryPlan {
    pub local_dir: String,
    pub issues_dir: String,
    pub ignore_root: String,
}

/// Mathematical content of [`LocalDirectoryPlan`].
pub struct LocalPlanView {
    pub local_dir: Seq<char>,
    pub issues_dir: Seq<char>,
    pub ignore_root: Seq<char>,
}

impl View for LocalDirectoryPlan {
    type V = LocalPlanView;

    open spec fn view(&self) -> LocalPlanView {
        LocalPlanView {
            local_dir: self.local_dir@,
            issues_dir: self.issues_dir@,
            ignore_root: self.ignore_root@,
        }
    }
}

/// The plan for the local directory beside a project directory whose
/// parent is `parent`.
pub open spec fn local_plan(parent: Seq<char>) -> LocalPlanView {
    LocalPlanView {
        local_dir: path_in(parent, "project-local"@),
        issues_dir: path_in(path_in(parent, "project-local"@), "issues"@),
        ignore_root: parent,
    }
}

/// Plans the local project directory: the sibling `project-local` of the
/// project directory. `parent` is the directory above the project directory,
/// if it has one.
pub fn ensure_project_local_directory(parent: Option<&str>) -> (out: Result<
    LocalDirectoryPlan,
    KanbusError,
>)
    ensures
        match parent {
            Some(above) => out matches Ok(plan) && plan@ == local_plan(above@),
            None => out matches Err(e) && e@ == KanbusErrorView::Io(
                "project-local path unavailable"@,
            ),
        },
{
    match parent {
        Some(above) => {
            let local_dir = join_path(above, "project-local");
            let issues_dir = join_path(local_dir.as_str(), "issues");
            Ok(LocalDirectoryPlan { local_dir, issues_dir, ignore_root: owned(above) })
        },
        None => Err(KanbusError::Io(owned("project-local path unavailable"))),
    }
}

/// What initializing a project asks for: the directories to make, in order,
/// and the plan for the local directory where one is wanted.
#[derive(Debug)]
pub struct InitializationPlan {
    pub directories: Vec<String>,
    pub local: Option<LocalDirectoryPlan>,
}

/// Plans the initialization of a project below `root`: the directory
/// `project` and its `issues`, and the local directory beside it where
/// `create_local` asks for one. A root that holds a `project` already is
/// refused.
pub fn initialize_project(root: &str, project_exists: bool, create_local: bool) -> (out: Result<
    InitializationPlan,
    KanbusError,
>)
    ensures
        project_exists ==> (out matches Err(e) && e@ == KanbusErrorView::Initialization(
            "already initialized"@,
        )),
        !project_exists ==> (out matches Ok(plan) && plan.directories.deep_view() == seq![
            path_in(root@, "project"@),
            path_in(path_in(root@, "project"@), "issues"@),
        ] && (match plan.local {
            Some(local) => create_local && local@ == local_plan(root@),
            None => !create_local,
        })),
{
    if project_exists {
        return Err(KanbusError::Initialization(owned("already initialized")));
    }
    let project_dir = join_path(root, "project");
    let issues_dir = join_path(project_dir.as_str(), "issues");
    let mut directories: Vec<String> = Vec::new();
    directories.push(project_dir);
    directories.push(issues_dir);
    proof {
        assert(directories.deep_view() =~= seq![
            path_in(root@, "project"@),
            path_in(path_in(root@, "project"@), "issues"@),
        ]);
    }
    let local = if create_local {
        match ensure_project_local_directory(Some(root)) {
            Ok(plan) => Some(plan),
            Err(_) => None,
        }
    } else {
        None
    };
    Ok(InitializationPlan { directories, local })
}

/// Whether git's answer names the top of a work tree: the command
/// succeeded. The path that it names is its output, white space aside.
pub open spec fn git_root_of(succeeded: bool, output: Seq<char>) -> Option<Seq<char>> {
    if succeeded {
        Some(crate::text::trim(output))
    } else {
        None
    }
}

/// Reads git's answer to the question where the top of the work tree lies.
/// Whether the path is a directory is left to the caller to look up.
pub fn find_git_root(succeeded: bool, output: &str) -> (out: Option<String>)
    ensures
        crate::models::option_text(out) == git_root_of(succeeded, output@),
{
    if succeeded {
        Some(string_of(&crate::text::trim_chars(&chars_of(output))))
    } else {
        None
    }
}

/// What the search for a projects file does at one directory.
#[derive(Debug)]
pub enum DotfileSearch {
    /// The projects file is found here.
    Found(String),
    /// The search ends without a file.
    Ended,
    /// The search goes on in the directory above.
    GoUp(String),
}

/// Mathematical content of [`DotfileSearch`].
pub enum DotfileSearchView {
    Found(Seq<char>),
    Ended,
    GoUp(Seq<char>),
}

impl View for DotfileSearch {
    type V = DotfileSearchView;

    open spec fn view(&self) -> DotfileSearchView {
        match self {
            DotfileSearch::Found(path) => DotfileSearchView::Found(path@),
            DotfileSearch::Ended => DotfileSearchView::Ended,
            DotfileSearch::GoUp(path) => DotfileSearchView::GoUp(path@),
        }
    }
}

/// One step of the search for a projects file, which goes from a directory
/// upwards: the file `.taskulus` in the directory `current` is taken where it
/// is there; else the search ends at the top of the work tree and where no
/// directory lies above, and goes on in the directory above otherwise.
pub open spec fn dotfile_step(
    current: Seq<char>,
    has_dotfile: bool,
    git_root: Option<Seq<char>>,
    parent: Option<Seq<char>>,
) -> DotfileSearchView {
    if has_dotfile {
        DotfileSearchView::Found(path_in(current, ".taskulus"@))
    } else if git_root == Some(current) {
        DotfileSearchView::Ended
    } else {
        match parent {
            Some(above) => DotfileSearchView::GoUp(above),
            None => DotfileSearchView::Ended,
        }
    }
}

/// Takes one step of the search for a projects file.
pub fn find_taskulus_dotfile(
    current: &str,
    has_dotfile: bool,
    git_root: Option<&str>,
    parent: Option<&str>,
) -> (out: DotfileSearch)
    ensures
        out@ == dotfile_step(
            current@,
            has_dotfile,
            match git_root {
                Some(root) => Some(root@),
                None => None,
            },
            match parent {
                Some(above) => Some(above@),
                None => None,
            },
        ),
{
    if has_dotfile {
        return DotfileSearch::Found(join_path(current, ".taskulus"));
    }
    let at_top = match git_root {
        Some(root) => same_text(root, current),
        None => false,
    };
    if at_top {
        return DotfileSearch::Ended;
    }
    match parent {
        Some(above) => DotfileSearch::GoUp(owned(above)),
        None => DotfileSearch::Ended,
    }
}

} // verus!
