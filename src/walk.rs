use vstd::prelude::*;
use vstd::string::*;

use crate::index::placed_view;
use crate::objects::{named_view, strings_view, AtomItem, DumpTreeResult};

verus! {

/// `path` extended by the component `name`.
pub open spec fn join_path(path: Seq<char>, name: Seq<char>) -> Seq<char> {
    path + "/"@ + name
}

/// The directory, under `root`, that receives the files of commit `commit`
/// of branch `branch`: `<root>/<branch>.<commit>`.
pub open spec fn dump_dir(root: Seq<char>, branch: Seq<char>, commit: Seq<char>) -> Seq<char> {
    join_path(root, branch + "."@ + commit)
}

/// The remote path of the ref file of branch `name`.
pub open spec fn ref_path(name: Seq<char>) -> Seq<char> {
    "refs/heads/"@ + name
}

/// `path` extended by the component `name`, with `/` between them.
pub fn join(path: &str, name: &str) -> (r: String)
    ensures
        r@ == join_path(path@, name@),
{
    let mut out = String::from_str(path);
    out.append("/");
    out.append(name);
    proof {
        reveal_strlit("/");
    }
    out
}

/// The directory under `root` that receives the files of a commit of a
/// branch.
pub fn commit_dump_dir(root: &str, branch: &str, commit: &str) -> (r: String)
    ensures
        r@ == dump_dir(root@, branch@, commit@),
{
    let mut leaf = String::from_str(branch);
    leaf.append(".");
    leaf.append(commit);
    proof {
        reveal_strlit(".");
    }
    join(root, leaf.as_str())
}

/// The remote path of the ref file that names the head commit of a branch.
pub fn branch_ref_path(name: &str) -> (r: String)
    ensures
        r@ == ref_path(name@),
{
    let mut out = String::from_str("refs/heads/");
    out.append(name);
    proof {
        reveal_strlit("refs/heads/");
    }
    out
}

/// Distinct names in one directory give distinct paths.
pub proof fn lemma_child_paths_distinct(dir: Seq<char>, a: Seq<char>, b: Seq<char>)
    requires
        a != b,
    ensures
        join_path(dir, a) != join_path(dir, b),
{
    reveal_strlit("/");
    let k = dir.len() + 1;
    if join_path(dir, a) == join_path(dir, b) {
        assert(join_path(dir, a).subrange(k as int, join_path(dir, a).len() as int) =~= a);
        assert(join_path(dir, b).subrange(k as int, join_path(dir, b).len() as int) =~= b);
    }
}

/// `known` followed by the ids of `ids` that are not yet among them, each
/// once, in order.
pub open spec fn append_new(known: Seq<Seq<char>>, ids: Seq<Seq<char>>) -> Seq<Seq<char>>
    decreases ids.len(),
{
    if ids.len() == 0 {
        known
    } else {
        let k = append_new(known, ids.drop_last());
        if k.contains(ids.last()) {
            k
        } else {
            k.push(ids.last())
        }
    }
}

/// The commits of one branch's history, walked breadth first from its head.
/// `ids` holds every commit id met so far, each once, in the order met;
/// the first `next` of them have been handed out to be fetched.
pub struct HistoryWalk {
    pub ids: Vec<String>,
    pub next: usize,
}

impl HistoryWalk {
    pub open spec fn wf(&self) -> bool {
        &&& self.next <= self.ids@.len()
        &&& strings_view(self.ids@).no_duplicates()
    }

    /// A walk that starts at the head commit `head`.
    pub fn new(head: String) -> (r: HistoryWalk)
        ensures
            r.wf(),
            strings_view(r.ids@) == seq![head@],
            r.next == 0,
    {
        let mut ids: Vec<String> = Vec::new();
        ids.push(head);
        proof {
            assert(strings_view(ids@) =~= seq![head@]);
        }
        HistoryWalk { ids, next: 0 }
    }

    /// Whether every commit met has been handed out.
    pub fn is_done(&self) -> (r: bool)
        requires
            self.wf(),
        ensures
            r == (self.next == self.ids@.len()),
    {
        self.next == self.ids.len()
    }

    /// The next commit to fetch, or `None` when the walk is over.
    pub fn next_commit(&mut self) -> (r: Option<String>)
        requires
            old(self).wf(),
        ensures
            final(self).wf(),
            final(self).ids@ == old(self).ids@,
            old(self).next < old(self).ids@.len() ==> r is Some && r->Some_0@ == old(
                self,
            ).ids@[old(self).next as int]@ && final(self).next == old(self).next + 1,
            old(self).next == old(self).ids@.len() ==> r is None && final(self).next == old(
                self,
            ).next,
    {
        if self.next < self.ids.len() {
            let id = self.ids[self.next].clone();
            self.next = self.next + 1;
            Some(id)
        } else {
            None
        }
    }

    /// Whether the commit `id` has been met.
    pub fn has_met(&self, id: &String) -> (r: bool)
        ensures
            r == strings_view(self.ids@).contains(id@),
    {
        let n = self.ids.len();
        let mut i: usize = 0;
        while i < n
            invariant
                n == self.ids@.len(),
                i <= n,
                forall|j: int| 0 <= j < i ==> self.ids@[j]@ != id@,
            decreases n - i,
        {
            if self.ids[i] == *id {
                proof {
                    assert(strings_view(self.ids@)[i as int] == id@);
                }
                return true;
            }
            i = i + 1;
        }
        proof {
            if strings_view(self.ids@).contains(id@) {
                let j = choose|j: int|
                    0 <= j < strings_view(self.ids@).len() && strings_view(self.ids@)[j] == id@;
                assert(self.ids@[j]@ == id@);
            }
        }
        false
    }

    /// Records the parents of a fetched commit: those not met before are
    /// queued, in order, each once.
    pub fn record_parents(&mut self, parents: &Vec<String>)
        requires
            old(self).wf(),
        ensures
            final(self).wf(),
            final(self).next == old(self).next,
            strings_view(final(self).ids@) == append_new(
                strings_view(old(self).ids@),
                strings_view(parents@),
            ),
    {
        let ghost start = strings_view(self.ids@);
        let n = parents.len();
        let mut i: usize = 0;
        while i < n
            invariant
                n == parents@.len(),
                i <= n,
                self.wf(),
                self.next == old(self).next,
                start == strings_view(old(self).ids@),
                strings_view(self.ids@) == append_new(
                    start,
                    strings_view(parents@).take(i as int),
                ),
            decreases n - i,
        {
            proof {
                let pv = strings_view(parents@);
                assert(pv.take(i as int + 1).drop_last() =~= pv.take(i as int));
                assert(pv.take(i as int + 1).last() == parents@[i as int]@);
            }
            if !self.has_met(&parents[i]) {
                let ghost before = self.ids@;
                self.ids.push(parents[i].clone());
                proof {
                    assert(strings_view(self.ids@) =~= strings_view(before).push(parents@[i as int]@));
                    assert(strings_view(self.ids@).no_duplicates());
                }
            }
            i = i + 1;
        }
        proof {
            assert(strings_view(parents@).take(n as int) =~= strings_view(parents@));
        }
    }
}

/// A commit walk meets each commit id once, so on a history whose commits
/// lie in a finite set `g` it hands out at most `g.len()` commits: with
/// merges and shared ancestors too, the walk ends.
pub proof fn lemma_history_walk_bounded(w: HistoryWalk, g: Set<Seq<char>>)
    requires
        w.wf(),
        g.finite(),
        forall|i: int| 0 <= i < w.ids@.len() ==> g.contains(w.ids@[i]@),
    ensures
        w.next <= w.ids@.len() <= g.len(),
{
    let s = strings_view(w.ids@);
    s.unique_seq_to_set();
    assert(s.to_set().subset_of(g)) by {
        assert forall|x: Seq<char>| s.to_set().contains(x) implies g.contains(x) by {
            let i = choose|i: int| 0 <= i < s.len() && s[i] == x;
            assert(w.ids@[i]@ == x);
        }
    }
    vstd::set_lib::lemma_len_subset(s.to_set(), g);
}

/// Recording parents adds no id from outside the history: where the ids met
/// and the parents all lie in `g`, so do the ids met afterwards.
pub proof fn lemma_append_new_within(known: Seq<Seq<char>>, ids: Seq<Seq<char>>, g: Set<Seq<char>>)
    requires
        forall|i: int| 0 <= i < known.len() ==> g.contains(known[i]),
        forall|i: int| 0 <= i < ids.len() ==> g.contains(ids[i]),
    ensures
        forall|i: int| 0 <= i < append_new(known, ids).len() ==> g.contains(append_new(known, ids)[i]),
    decreases ids.len(),
{
    if ids.len() > 0 {
        lemma_append_new_within(known, ids.drop_last(), g);
        let k = append_new(known, ids.drop_last());
        assert(g.contains(ids.last()));
        if !k.contains(ids.last()) {
            assert forall|i: int| 0 <= i < k.push(ids.last()).len() implies g.contains(
                k.push(ids.last())[i],
            ) by {
                if i < k.len() {
                    assert(k.push(ids.last())[i] == k[i]);
                }
            }
        }
    }
}

/// The (path, id) pairs of the children of a directory at `dir`.
pub open spec fn placed_children(dir: Seq<char>, kids: Seq<(Seq<char>, Seq<char>)>) -> Seq<
    (Seq<char>, Seq<char>),
> {
    kids.map_values(|k: (Seq<char>, Seq<char>)| (join_path(dir, k.0), k.1))
}

/// The names of a list of (name, id) pairs.
pub open spec fn names_of(kids: Seq<(Seq<char>, Seq<char>)>) -> Seq<Seq<char>> {
    kids.map_values(|k: (Seq<char>, Seq<char>)| k.0)
}

/// Each entry of a directory is placed exactly once: there are as many
/// placements as entries, and entries with distinct names are placed at
/// distinct paths.
pub proof fn lemma_placed_children_once(dir: Seq<char>, kids: Seq<(Seq<char>, Seq<char>)>)
    requires
        names_of(kids).no_duplicates(),
    ensures
        placed_children(dir, kids).len() == kids.len(),
        names_of(placed_children(dir, kids)).no_duplicates(),
{
    let placed = placed_children(dir, kids);
    assert forall|i: int, j: int|
        0 <= i < placed.len() && 0 <= j < placed.len() && i != j implies names_of(placed)[i]
        != names_of(placed)[j] by {
        assert(names_of(kids)[i] != names_of(kids)[j]);
        lemma_child_paths_distinct(dir, kids[i].0, kids[j].0);
    }
}

/// The trees of one commit, walked breadth first from its root tree.
/// `pending` holds every (directory, tree id) met so far, in the order met;
/// the first `next` have been handed out. Nothing is skipped: a tree met at
/// two paths is walked at both.
pub struct TreeWalk {
    pub pending: Vec<AtomItem>,
    pub next: usize,
}

impl TreeWalk {
    pub open spec fn wf(&self) -> bool {
        self.next <= self.pending@.len()
    }

    /// A walk of the tree `tree_sha1`, whose files go under `dir`.
    pub fn new(dir: String, tree_sha1: String) -> (r: TreeWalk)
        ensures
            r.wf(),
            placed_view(r.pending@) == seq![(dir@, tree_sha1@)],
            r.next == 0,
    {
        let mut pending: Vec<AtomItem> = Vec::new();
        pending.push(AtomItem::path(dir, tree_sha1));
        proof {
            assert(placed_view(pending@) =~= seq![(dir@, tree_sha1@)]);
        }
        TreeWalk { pending, next: 0 }
    }

    /// The next (directory, tree id) to fetch, or `None` when the walk is
    /// over.
    pub fn next_tree(&mut self) -> (r: Option<AtomItem>)
        requires
            old(self).wf(),
        ensures
            final(self).wf(),
            final(self).pending@ == old(self).pending@,
            old(self).next < old(self).pending@.len() ==> r is Some && (r->Some_0.path@, r->Some_0.sha1@)
                == placed_view(old(self).pending@)[old(self).next as int] && final(self).next == old(
                self,
            ).next + 1,
            old(self).next == old(self).pending@.len() ==> r is None && final(self).next == old(
                self,
            ).next,
    {
        if self.next < self.pending.len() {
            let item = &self.pending[self.next];
            let r = AtomItem::path(item.path.clone(), item.sha1.clone());
            self.next = self.next + 1;
            Some(r)
        } else {
            None
        }
    }

    /// Records the listing of the tree fetched for directory `dir`: each
    /// subtree is queued at `dir/<name>`, and each file is returned placed at
    /// `dir/<name>`, in listing order.
    pub fn record_tree(&mut self, dir: &String, listing: &DumpTreeResult) -> (r: Vec<AtomItem>)
        requires
            old(self).wf(),
        ensures
            final(self).wf(),
            final(self).next == old(self).next,
            placed_view(final(self).pending@) == placed_view(old(self).pending@) + placed_children(
                dir@,
                named_view(listing.trees@),
            ),
            placed_view(r@) == placed_children(dir@, named_view(listing.blobs@)),
    {
        let n = listing.trees.len();
        let mut i: usize = 0;
        while i < n
            invariant
                n == listing.trees@.len(),
                i <= n,
                self.wf(),
                self.next == old(self).next,
                placed_view(self.pending@) =~= placed_view(old(self).pending@) + placed_children(
                    dir@,
                    named_view(listing.trees@).take(i as int),
                ),
            decreases n - i,
        {
            let t = &listing.trees[i];
            let ghost before = self.pending@;
            self.pending.push(AtomItem::path(join(dir.as_str(), t.name.as_str()), t.sha1.clone()));
            proof {
                assert(forall|j: int| 0 <= j < before.len() ==> self.pending@[j] == before[j]);
                assert(self.pending@.last().path@ == join_path(dir@, t.name@));
                assert(named_view(listing.trees@).take(i as int + 1)[i as int] == (t.name@, t.sha1@));
                let nv = named_view(listing.trees@);
                let x = (join_path(dir@, t.name@), t.sha1@);
                assert(placed_children(dir@, nv.take(i as int + 1)) =~= placed_children(
                    dir@,
                    nv.take(i as int),
                ).push(x));
                assert(placed_view(self.pending@) =~= placed_view(before).push(x));
                assert(placed_view(self.pending@) =~= placed_view(old(self).pending@)
                    + placed_children(dir@, named_view(listing.trees@).take(i as int + 1)));
            }
            i = i + 1;
        }
        proof {
            assert(named_view(listing.trees@).take(n as int) =~= named_view(listing.trees@));
        }
        let mut out: Vec<AtomItem> = Vec::new();
        let m = listing.blobs.len();
        let mut k: usize = 0;
        while k < m
            invariant
                m == listing.blobs@.len(),
                k <= m,
                placed_view(out@) =~= placed_children(dir@, named_view(listing.blobs@).take(k as int)),
            decreases m - k,
        {
            let b = &listing.blobs[k];
            let ghost before = out@;
            out.push(AtomItem::path(join(dir.as_str(), b.name.as_str()), b.sha1.clone()));
            proof {
                assert(forall|j: int| 0 <= j < before.len() ==> out@[j] == before[j]);
                assert(out@.last().path@ == join_path(dir@, b.name@));
                assert(named_view(listing.blobs@).take(k as int + 1)[k as int] == (b.name@, b.sha1@));
                let nv = named_view(listing.blobs@);
                let x = (join_path(dir@, b.name@), b.sha1@);
                assert(placed_children(dir@, nv.take(k as int + 1)) =~= placed_children(
                    dir@,
                    nv.take(k as int),
                ).push(x));
                assert(placed_view(out@) =~= placed_view(before).push(x));
                assert(placed_view(out@) =~= placed_children(
                    dir@,
                    named_view(listing.blobs@).take(k as int + 1),
                ));
            }
            k = k + 1;
        }
        proof {
            assert(named_view(listing.blobs@).take(m as int) =~= named_view(listing.blobs@));
        }
        out
    }
}

} // verus!
