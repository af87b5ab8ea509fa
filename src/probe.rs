use vstd::prelude::*;

use crate::error::RemoteGitHackDumpError;

verus! {

/// Whether an HTTP status is a success (2xx).
pub open spec fn spec_is_success(status: u16) -> bool {
    200 <= status <= 299
}

/// Whether an HTTP status is a success (2xx).
pub fn is_success(status: u16) -> (r: bool)
    ensures
        r == spec_is_success(status),
{
    200 <= status && status <= 299
}

/// Accepts a fetch that answered with `status`: a success passes, any
/// other status is an `HTTPError` carrying it.
pub fn check_status(status: u16) -> (r: Result<(), RemoteGitHackDumpError>)
    ensures
        spec_is_success(status) ==> r is Ok,
        !spec_is_success(status) ==> r == Err::<(), RemoteGitHackDumpError>(
            RemoteGitHackDumpError::HTTPError(status),
        ),
{
    if is_success(status) {
        Ok(())
    } else {
        Err(RemoteGitHackDumpError::HTTPError(status))
    }
}

/// Where a repository was found relative to the address given.
#[derive(Debug, PartialEq, Eq, Structural)]
pub enum RepoLocation {
    /// The address is the `.git` directory itself.
    AtBase,
    /// The address is the working tree; the repository is under `.git/`.
    UnderGitDir,
}

/// Whether the status of fetching `index` calls for a second probe of
/// `.git/index`.
pub fn needs_fallback(index_status: u16) -> (r: bool)
    ensures
        r == !spec_is_success(index_status),
{
    !is_success(index_status)
}

/// Decides whether a repository exists from the status of fetching `index`
/// at the address and, where that failed and the fallback was probed, the
/// status of `.git/index`.
pub fn locate_repository(index_status: u16, fallback_status: Option<u16>) -> (r: Result<
    RepoLocation,
    RemoteGitHackDumpError,
>)
    ensures
        spec_is_success(index_status) ==> r == Ok::<RepoLocation, RemoteGitHackDumpError>(
            RepoLocation::AtBase,
        ),
        !spec_is_success(index_status) ==> match fallback_status {
            Some(s) => if spec_is_success(s) {
                r == Ok::<RepoLocation, RemoteGitHackDumpError>(RepoLocation::UnderGitDir)
            } else {
                r == Err::<RepoLocation, RemoteGitHackDumpError>(RemoteGitHackDumpError::RepoNotExists)
            },
            None => r == Err::<RepoLocation, RemoteGitHackDumpError>(
                RemoteGitHackDumpError::RepoNotExists,
            ),
        },
{
    if is_success(index_status) {
        return Ok(RepoLocation::AtBase);
    }
    match fallback_status {
        Some(s) => if is_success(s) {
            Ok(RepoLocation::UnderGitDir)
        } else {
            Err(RemoteGitHackDumpError::RepoNotExists)
        },
        None => Err(RemoteGitHackDumpError::RepoNotExists),
    }
}

} // verus!
