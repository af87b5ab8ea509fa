use vstd::prelude::*;
use vstd::string::*;

use crate::error::RemoteGitHackDumpError;

verus! {

/// Number of characters of an object id in hexadecimal.
pub const SHA1_HEX_LEN: usize = 40;

/// The store path of the loose object with id `s`:
/// `objects/<first two characters>/<the other 38>`.
pub open spec fn object_path(s: Seq<char>) -> Seq<char> {
    "objects/"@ + s.subrange(0, 2) + "/"@ + s.subrange(2, s.len() as int)
}

/// The store path of the loose object with the given id, or
/// `SHA1Error(len)` where the id does not have 40 characters.
pub fn create_path_from_sha1(sha1: &str) -> (r: Result<String, RemoteGitHackDumpError>)
    ensures
        sha1@.len() == SHA1_HEX_LEN ==> r is Ok && r->Ok_0@ == object_path(sha1@),
        sha1@.len() != SHA1_HEX_LEN ==> r == Err::<String, RemoteGitHackDumpError>(
            RemoteGitHackDumpError::SHA1Error(sha1@.len() as usize)),
{
    let n = sha1.unicode_len();
    if n != SHA1_HEX_LEN {
        return Err(RemoteGitHackDumpError::SHA1Error(n));
    }
    let dir_part = sha1.substring_char(0, 2);
    let file_part = sha1.substring_char(2, n);
    let mut out = String::from_str("objects/");
    out.append(dir_part);
    out.append("/");
    out.append(file_part);
    proof {
        reveal_strlit("objects/");
        reveal_strlit("/");
    }
    Ok(out)
}

/// An object to fetch: its id and its path in the remote store.
#[derive(Debug)]
pub struct ObjectEntry {
    pub sha1: String,
    pub down_path: String,
}

impl ObjectEntry {
    /// The entry of the object with id `sha1`, or `SHA1Error(len)` where the
    /// id does not have 40 characters.
    pub fn new(sha1: String) -> (r: Result<ObjectEntry, RemoteGitHackDumpError>)
        ensures
            sha1@.len() == SHA1_HEX_LEN ==> r is Ok && r->Ok_0.sha1@ == sha1@
                && r->Ok_0.down_path@ == object_path(sha1@),
            sha1@.len() != SHA1_HEX_LEN ==> r == Err::<ObjectEntry, RemoteGitHackDumpError>(
                RemoteGitHackDumpError::SHA1Error(sha1@.len() as usize),
            ),
    {
        match create_path_from_sha1(sha1.as_str()) {
            Ok(down_path) => Ok(ObjectEntry { sha1, down_path }),
            Err(e) => Err(e),
        }
    }
}

} // verus!
