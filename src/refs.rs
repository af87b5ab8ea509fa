use vstd::prelude::*;
use vstd::string::*;

use crate::error::RemoteGitHackDumpError;
use crate::objects::AtomItem;

verus! {

#[verifier::external_type_specification]
#[verifier::external_body]
pub struct ExFromUtf8Error(std::string::FromUtf8Error);

/// The text that `b` holds as UTF-8, or `None` where it is not valid UTF-8.
pub uninterp spec fn utf8_text_of(b: Seq<u8>) -> Option<Seq<char>>;

/// Relies on `String::from_utf8`: it succeeds exactly on valid UTF-8, and the
/// text depends on the bytes alone.
#[verifier::external_body]
fn utf8_text(b: &[u8]) -> (r: Result<String, std::string::FromUtf8Error>)
    ensures
        r is Ok ==> utf8_text_of(b@) == Some(r->Ok_0@),
        r is Err ==> utf8_text_of(b@) is None,
{
    String::from_utf8(b.to_vec())
}

/// Unicode white space, as `char::is_whitespace` decides it.
pub open spec fn is_white_space(c: char) -> bool {
    ('\u{9}' <= c && c <= '\u{d}') || c == ' ' || c == '\u{85}' || c == '\u{a0}' || c
        == '\u{1680}' || ('\u{2000}' <= c && c <= '\u{200a}') || c == '\u{2028}' || c
        == '\u{2029}' || c == '\u{202f}' || c == '\u{205f}' || c == '\u{3000}'
}

/// Whether a character is Unicode white space.
pub fn char_is_white_space(c: char) -> (r: bool)
    ensures
        r == is_white_space(c),
{
    ('\u{9}' <= c && c <= '\u{d}') || c == ' ' || c == '\u{85}' || c == '\u{a0}' || c
        == '\u{1680}' || ('\u{2000}' <= c && c <= '\u{200a}') || c == '\u{2028}' || c
        == '\u{2029}' || c == '\u{202f}' || c == '\u{205f}' || c == '\u{3000}'
}

/// `s` without its trailing white space.
pub open spec fn trim_end(s: Seq<char>) -> Seq<char>
    decreases s.len(),
{
    if s.len() > 0 && is_white_space(s.last()) {
        trim_end(s.drop_last())
    } else {
        s
    }
}

/// Removes the trailing white space of a text.
pub fn trim_end_text(s: &str) -> (r: String)
    ensures
        r@ == trim_end(s@),
{
    let mut k: usize = s.unicode_len();
    proof {
        assert(s@.take(k as int) =~= s@);
    }
    while k > 0 && char_is_white_space(s.get_char(k - 1))
        invariant
            k <= s@.len(),
            trim_end(s@.take(k as int)) == trim_end(s@),
        decreases k,
    {
        proof {
            assert(s@.take(k as int - 1) =~= s@.take(k as int).drop_last());
        }
        k = k - 1;
    }
    proof {
        if k > 0 {
            assert(s@.take(k as int).last() == s@[k as int - 1]);
        }
    }
    s.substring_char(0, k).to_string()
}

/// What the content of `refs/heads/<name>` names: its text without trailing
/// white space, or `None` where it is not text.
pub open spec fn ref_target(content: Seq<u8>) -> Option<Seq<char>> {
    match utf8_text_of(content) {
        Some(t) => Some(trim_end(t)),
        None => None,
    }
}

/// The head commit id held by the content of a branch's ref file.
pub fn parse_ref(content: &[u8]) -> (r: Result<String, RemoteGitHackDumpError>)
    ensures
        match ref_target(content@) {
            Some(id) => r is Ok && r->Ok_0@ == id,
            None => r is Err && r->Err_0 == RemoteGitHackDumpError::Bytes2Utf8StringError,
        },
{
    match utf8_text(content) {
        Ok(text) => Ok(trim_end_text(text.as_str())),
        Err(_) => Err(RemoteGitHackDumpError::Bytes2Utf8StringError),
    }
}

/// The branch called `name` whose ref file holds `content`.
pub fn branch_from_ref(name: String, content: &[u8]) -> (r: Result<AtomItem, RemoteGitHackDumpError>)
    ensures
        match ref_target(content@) {
            Some(id) => r is Ok && r->Ok_0.name@ == name@ && r->Ok_0.sha1@ == id
                && r->Ok_0.path@ == Seq::<char>::empty(),
            None => r is Err && r->Err_0 == RemoteGitHackDumpError::Bytes2Utf8StringError,
        },
{
    match parse_ref(content) {
        Ok(sha1) => Ok(AtomItem::name(name, sha1)),
        Err(e) => Err(e),
    }
}

} // verus!
