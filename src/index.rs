use vstd::prelude::*;

use crate::error::RemoteGitHackDumpError;
use crate::objects::AtomItem;

verus! {

/// The entries of an index file, each as (path, hexadecimal id), in stored
/// order, or `None` where the file is not a well-formed index.
pub uninterp spec fn index_entries_of(data: Seq<u8>) -> Option<Seq<(Seq<char>, Seq<char>)>>;

/// The view of a list of (path, id) pairs.
pub open spec fn pairs_view(v: Seq<(String, String)>) -> Seq<(Seq<char>, Seq<char>)> {
    v.map_values(|e: (String, String)| (e.0@, e.1@))
}

/// The (path, id) pairs of a list of items.
pub open spec fn placed_view(v: Seq<AtomItem>) -> Seq<(Seq<char>, Seq<char>)> {
    v.map_values(|a: AtomItem| (a.path@, a.sha1@))
}

/// Relies on gix_index's `State::from_bytes` with SHA-1 ids and default
/// options: each entry's path and id depend on the file's bytes alone, and
/// come in stored order.
#[verifier::external_body]
fn decode_index(data: &[u8]) -> (r: Result<Vec<(String, String)>, gix_error::Error>)
    ensures
        r is Ok ==> index_entries_of(data@) == Some(pairs_view(r->Ok_0@)),
        r is Err ==> index_entries_of(data@) is None,
{
    let kind = gix_index::hash::Kind::Sha1;
    let options = gix_index::decode::Options::default();
    match gix_index::State::from_bytes(data, filetime::FileTime::zero(), kind, options) {
        Ok((state, _)) => Ok(state.entries().iter().map(|e| (e.path(&state).to_string(), e.id.to_string())).collect()),
        Err(e) => Err(e),
    }
}

/// Items placed at the given (path, id) pairs, in the same order.
pub fn placed_items(entries: &Vec<(String, String)>) -> (r: Vec<AtomItem>)
    ensures
        placed_view(r@) == pairs_view(entries@),
        forall|i: int| 0 <= i < r@.len() ==> r@[i].name@ == Seq::<char>::empty(),
{
    let mut out: Vec<AtomItem> = Vec::new();
    let n = entries.len();
    let mut i: usize = 0;
    while i < n
        invariant
            n == entries@.len(),
            i <= n,
            placed_view(out@) =~= pairs_view(entries@).take(i as int),
            forall|j: int| 0 <= j < out@.len() ==> out@[j].name@ == Seq::<char>::empty(),
        decreases n - i,
    {
        let path = entries[i].0.clone();
        let sha1 = entries[i].1.clone();
        let ghost before = out@;
        out.push(AtomItem::path(path, sha1));
        proof {
            assert(placed_view(before) =~= pairs_view(entries@).take(i as int));
            assert(forall|j: int| 0 <= j < before.len() ==> out@[j] == before[j]);
            assert(out@.last().path@ == entries@[i as int].0@);
            assert(out@.last().sha1@ == entries@[i as int].1@);
            assert(placed_view(out@) =~= pairs_view(entries@).take(i as int + 1));
        }
        i = i + 1;
    }
    proof {
        assert(pairs_view(entries@).take(n as int) =~= pairs_view(entries@));
    }
    out
}

/// Decodes an index file into the items it stages: each file's
/// repository-relative path and object id, in stored order.
pub fn parse_index(data: &[u8]) -> (r: Result<Vec<AtomItem>, RemoteGitHackDumpError>)
    ensures
        match index_entries_of(data@) {
            Some(es) => r is Ok && placed_view(r->Ok_0@) == es,
            None => r is Err && r->Err_0 == RemoteGitHackDumpError::IndexParseError,
        },
{
    match decode_index(data) {
        Ok(entries) => Ok(placed_items(&entries)),
        Err(_) => Err(RemoteGitHackDumpError::IndexParseError),
    }
}

/// Decoding an index is deterministic and keeps the stored order: two
/// decodings of the same bytes give the same items, the i-th item being the
/// i-th stored entry.
pub proof fn lemma_index_parse_deterministic(
    data: Seq<u8>,
    first: Seq<AtomItem>,
    second: Seq<AtomItem>,
)
    requires
        index_entries_of(data) is Some,
        placed_view(first) == index_entries_of(data)->Some_0,
        placed_view(second) == index_entries_of(data)->Some_0,
    ensures
        placed_view(first) == placed_view(second),
        forall|i: int|
            0 <= i < first.len() ==> (first[i].path@, first[i].sha1@) == index_entries_of(
                data,
            )->Some_0[i],
{
    assert forall|i: int| 0 <= i < first.len() implies (first[i].path@, first[i].sha1@)
        == index_entries_of(data)->Some_0[i] by {
        assert(placed_view(first)[i] == (first[i].path@, first[i].sha1@));
    }
}

} // verus!
