use vstd::prelude::*;

use crate::error::RemoteGitHackDumpError;

verus! {

#[verifier::external_type_specification]
#[verifier::external_body]
pub struct ExGixError(gix_error::Error);

/// A named object: a branch with its head commit, a tree entry with its
/// object, or an index entry with the path it is checked out at.
#[derive(Debug)]
pub struct AtomItem {
    pub name: String,
    pub sha1: String,
    pub path: String,
}

impl AtomItem {
    /// An item known by its name, with an empty path.
    pub fn name(name: String, sha1: String) -> (r: AtomItem)
        ensures
            r.name@ == name@,
            r.sha1@ == sha1@,
            r.path@ == Seq::<char>::empty(),
    {
        AtomItem { name, sha1, path: String::new() }
    }

    /// An item known by its path, with an empty name.
    pub fn path(path: String, sha1: String) -> (r: AtomItem)
        ensures
            r.name@ == Seq::<char>::empty(),
            r.sha1@ == sha1@,
            r.path@ == path@,
    {
        AtomItem { name: String::new(), sha1, path }
    }
}

/// What a commit payload names: its parents and its tree.
#[derive(Debug)]
pub struct DumpCommitResult {
    pub parents_sha1: Vec<String>,
    pub tree_sha1: String,
}

/// The entries of a tree payload, split into files and directories.
#[derive(Debug)]
pub struct DumpTreeResult {
    pub blobs: Vec<AtomItem>,
    pub trees: Vec<AtomItem>,
}

/// The view of a list of strings.
pub open spec fn strings_view(v: Seq<String>) -> Seq<Seq<char>> {
    v.map_values(|s: String| s@)
}

/// The (name, id) pairs of a list of items.
pub open spec fn named_view(v: Seq<AtomItem>) -> Seq<(Seq<char>, Seq<char>)> {
    v.map_values(|a: AtomItem| (a.name@, a.sha1@))
}

/// The parent ids and the tree id that a commit payload holds, as
/// hexadecimal text, or `None` where it is not a well-formed commit.
pub uninterp spec fn commit_ids_of(payload: Seq<u8>) -> Option<(Seq<Seq<char>>, Seq<char>)>;

/// Relies on gix_object's `CommitRef::from_bytes` with SHA-1 ids: the parent
/// and tree ids, each shown as hexadecimal text, depend on the payload alone.
#[verifier::external_body]
fn decode_commit(payload: &[u8]) -> (r: Result<(Vec<String>, String), gix_error::Error>)
    ensures
        r is Ok ==> commit_ids_of(payload@) == Some((strings_view(r->Ok_0.0@), r->Ok_0.1@)),
        r is Err ==> commit_ids_of(payload@) is None,
{
    match gix_object::CommitRef::from_bytes(payload, gix_index::hash::Kind::Sha1) {
        Ok(c) => Ok((c.parents.iter().map(|p| p.to_string()).collect(), c.tree.to_string())),
        Err(e) => Err(e),
    }
}

/// The entries of a tree payload, each as (mode, name, hexadecimal id), in
/// stored order, or `None` where it is not a well-formed tree.
pub uninterp spec fn tree_entries_of(payload: Seq<u8>) -> Option<Seq<(u16, Seq<char>, Seq<char>)>>;

/// The view of a list of decoded tree entries.
pub open spec fn entries_view(v: Seq<(u16, String, String)>) -> Seq<(u16, Seq<char>, Seq<char>)> {
    v.map_values(|e: (u16, String, String)| (e.0, e.1@, e.2@))
}

/// Relies on gix_object's `TreeRef::from_bytes` with SHA-1 ids: each entry's
/// mode value, file name and id, as stored, depend on the payload alone.
#[verifier::external_body]
fn decode_tree(payload: &[u8]) -> (r: Result<Vec<(u16, String, String)>, gix_error::Error>)
    ensures
        r is Ok ==> tree_entries_of(payload@) == Some(entries_view(r->Ok_0@)),
        r is Err ==> tree_entries_of(payload@) is None,
{
    match gix_object::TreeRef::from_bytes(payload, gix_index::hash::Kind::Sha1) {
        Ok(t) => Ok(
            t.entries.iter().map(|e| (e.mode.value(), e.filename.to_string(), e.oid.to_string())).collect(),
        ),
        Err(e) => Err(e),
    }
}

/// The bits of a mode that give the kind of a tree entry.
pub const MODE_TYPE_MASK: u16 = 0o170000;

/// The kind bits of a subtree.
pub const MODE_TREE: u16 = 0o040000;

/// The kind bits of a regular file, executable or not.
pub const MODE_BLOB: u16 = 0o100000;

pub open spec fn spec_mode_is_tree(mode: u16) -> bool {
    mode & MODE_TYPE_MASK == MODE_TREE
}

pub open spec fn spec_mode_is_blob(mode: u16) -> bool {
    mode & MODE_TYPE_MASK == MODE_BLOB
}

/// Whether a tree entry's mode marks a subtree.
pub fn mode_is_tree(mode: u16) -> (r: bool)
    ensures
        r == spec_mode_is_tree(mode),
{
    mode & MODE_TYPE_MASK == MODE_TREE
}

/// Whether a tree entry's mode marks a file; symbolic links and submodules
/// are neither files nor subtrees.
pub fn mode_is_blob(mode: u16) -> (r: bool)
    ensures
        r == spec_mode_is_blob(mode),
{
    mode & MODE_TYPE_MASK == MODE_BLOB
}

/// The (name, id) pairs of the entries whose mode is a subtree
/// (`want_tree`) or a file (otherwise), in stored order.
pub open spec fn children(es: Seq<(u16, Seq<char>, Seq<char>)>, want_tree: bool) -> Seq<
    (Seq<char>, Seq<char>),
>
    decreases es.len(),
{
    if es.len() == 0 {
        Seq::empty()
    } else {
        let e = es.last();
        let rest = children(es.drop_last(), want_tree);
        if (want_tree && spec_mode_is_tree(e.0)) || (!want_tree && spec_mode_is_blob(e.0)) {
            rest.push((e.1, e.2))
        } else {
            rest
        }
    }
}

/// Splits decoded tree entries into subtrees and files, keeping their order;
/// entries of any other mode are left out.
pub fn split_tree_entries(entries: &Vec<(u16, String, String)>) -> (r: DumpTreeResult)
    ensures
        named_view(r.trees@) == children(entries_view(entries@), true),
        named_view(r.blobs@) == children(entries_view(entries@), false),
{
    let mut blobs: Vec<AtomItem> = Vec::new();
    let mut trees: Vec<AtomItem> = Vec::new();
    let n = entries.len();
    let mut i: usize = 0;
    while i < n
        invariant
            n == entries@.len(),
            i <= n,
            named_view(trees@) == children(entries_view(entries@).take(i as int), true),
            named_view(blobs@) == children(entries_view(entries@).take(i as int), false),
        decreases n - i,
    {
        let e = &entries[i];
        proof {
            let ev = entries_view(entries@);
            assert(ev.take(i as int + 1).drop_last() =~= ev.take(i as int));
            assert(ev.take(i as int + 1).last() == (e.0, e.1@, e.2@));
        }
        if mode_is_tree(e.0) {
            trees.push(AtomItem::name(e.1.clone(), e.2.clone()));
        }
        if mode_is_blob(e.0) {
            blobs.push(AtomItem::name(e.1.clone(), e.2.clone()));
        }
        proof {
            let ev = entries_view(entries@);
            assert(named_view(trees@) =~= children(ev.take(i as int + 1), true));
            assert(named_view(blobs@) =~= children(ev.take(i as int + 1), false));
        }
        i = i + 1;
    }
    proof {
        assert(entries_view(entries@).take(n as int) =~= entries_view(entries@));
    }
    DumpTreeResult { blobs, trees }
}


/// Decodes a commit payload into its parent ids, none for a root commit,
/// and its tree id.
pub fn read_commit(payload: &[u8]) -> (r: Result<DumpCommitResult, RemoteGitHackDumpError>)
    ensures
        match commit_ids_of(payload@) {
            Some((parents, tree)) => r is Ok && strings_view(r->Ok_0.parents_sha1@) == parents
                && r->Ok_0.tree_sha1@ == tree,
            None => r is Err && r->Err_0 == RemoteGitHackDumpError::GixObjectParseError,
        },
{
    match decode_commit(payload) {
        Ok((parents_sha1, tree_sha1)) => Ok(DumpCommitResult { parents_sha1, tree_sha1 }),
        Err(_) => Err(RemoteGitHackDumpError::GixObjectParseError),
    }
}

/// Decodes a tree payload into its subtrees and its files, each as
/// (name, id) in stored order.
pub fn read_tree(payload: &[u8]) -> (r: Result<DumpTreeResult, RemoteGitHackDumpError>)
    ensures
        match tree_entries_of(payload@) {
            Some(es) => r is Ok && named_view(r->Ok_0.trees@) == children(es, true)
                && named_view(r->Ok_0.blobs@) == children(es, false),
            None => r is Err && r->Err_0 == RemoteGitHackDumpError::GixObjectParseError,
        },
{
    match decode_tree(payload) {
        Ok(entries) => Ok(split_tree_entries(&entries)),
        Err(_) => Err(RemoteGitHackDumpError::GixObjectParseError),
    }
}

} // verus!
