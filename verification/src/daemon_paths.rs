//! Where the daemon's socket and the caches live.

use crate::error::{text_result, KanbusError, KanbusErrorView};
use crate::file_io::{join_path, load_project_directory, path_in, project_among};
use vstd::prelude::*;

verus! {

/// The path of `file` in the cache directory of the project directory
/// `project`.
pub open spec fn cache_path(project: Seq<char>, file: Seq<char>) -> Seq<char> {
    path_in(path_in(project, ".cache"@), file)
}

/// The path of `file` in the cache directory of the one project among
/// `discovered`, or the reason why there is no such project.
pub open spec fn cache_file_among(discovered: Seq<Seq<char>>, file: Seq<char>) -> Result<
    Seq<char>,
    KanbusErrorView,
> {
    match project_among(discovered) {
        Ok(project) => Ok(cache_path(project, file)),
        Err(error) => Err(error),
    }
}

/// The path of `file` in the cache directory of the one project among
/// `discovered`.
fn cache_file_path(discovered: &Vec<String>, file: &str) -> (out: Result<String, KanbusError>)
    ensures
        text_result(out) == cache_file_among(discovered.deep_view(), file@),
{
    match load_project_directory(discovered) {
        Ok(project) => {
            let cache = join_path(project.as_str(), ".cache");
            Ok(join_path(cache.as_str(), file))
        },
        Err(error) => Err(error),
    }
}

/// The daemon's socket path for the project among `discovered`, the
/// directories that discovery found under the root.
pub fn get_daemon_socket_path(discovered: &Vec<String>) -> (out: Result<String, KanbusError>)
    ensures
        text_result(out) == cache_file_among(discovered.deep_view(), "kanbus.sock"@),
{
    cache_file_path(discovered, "kanbus.sock")
}

/// The index cache path for the project among `discovered`.
pub fn get_index_cache_path(discovered: &Vec<String>) -> (out: Result<String, KanbusError>)
    ensures
        text_result(out) == cache_file_among(discovered.deep_view(), "index.json"@),
{
    cache_file_path(discovered, "index.json")
}

/// The console state path for the project among `discovered`.
pub fn get_console_state_path(discovered: &Vec<String>) -> (out: Result<String, KanbusError>)
    ensures
        text_result(out) == cache_file_among(discovered.deep_view(), "console_state.json"@),
{
    cache_file_path(discovered, "console_state.json")
}

} // verus!
