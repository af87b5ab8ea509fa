use vstd::prelude::*;

verus! {

/// Every way in which recovering a repository can fail.
#[derive(Debug, PartialEq, Eq, Structural)]
pub enum RemoteGitHackDumpError {
    /// The remote base address could not be parsed or joined.
    UrlParseError,
    /// The HTTP transport failed.
    ReqwestError,
    /// The server answered with a status other than success.
    HTTPError(u16),
    /// A local file could not be read or written.
    IOError,
    /// A path has no parent directory.
    PathParseError,
    /// The config file is not well formed.
    GixConfigParseError,
    /// A ref's content is not text.
    Bytes2Utf8StringError,
    /// A commit or tree payload is not well formed.
    GixObjectParseError,
    /// An inflated loose object has no zero byte ending its header.
    HandleDecodedObjectError,
    /// The index file is not well formed.
    IndexParseError,
    /// No repository was found at the remote address.
    RepoNotExists,
    /// An object id does not have 40 characters; the length found.
    SHA1Error(usize),
    /// A loose object could not be inflated.
    DecompressError,
}

} // verus!
