//! Candidate discovery by walking a media-library root.
//!
//! The fallback for content no *arr knows about. Read-only by construction: a
//! [`Walk`] only ever asks for a directory to be listed.
//!
//! Two deliberate limitations:
//!
//! - It walks the root on every query, rather than keeping a size index.
//!   Repairs are rare and run one at a time, and the walk only looks at sizes.
//! - It skips symlinks entirely. Following them invites loops and makes
//!   reflink/hardlink reasoning depend on where the link lands.

use vstd::prelude::*;
use vstd::string::*;

use crate::library::{Candidate, CandidateError, CandidateOrigin, CandidateQuery};
use crate::paths::sorts_before;
use crate::torrent::TorrentFile;

verus! {

/// Guards against pathological trees; media libraries are nowhere near this deep.
pub const MAX_DEPTH: usize = 16;

/// What a directory entry is.
#[derive(Clone, Copy, Debug, PartialEq, Eq, Structural)]
pub enum EntryKind {
    Symlink,
    Directory,
    File { length: u64 },
    /// Neither, or vanished mid-walk, or unreadable.
    Other,
}

/// A directory entry.
#[derive(Debug, PartialEq, Eq)]
pub struct Entry {
    pub path: String,
    pub kind: EntryKind,
}

/// A directory still to be listed, and how far below the root it lies.
#[derive(Debug, PartialEq, Eq)]
pub struct Pending {
    pub path: String,
    pub depth: usize,
}

/// Some file that is looked for has that length.
pub open spec fn wanted(files: Seq<TorrentFile>, length: u64) -> bool {
    exists|i: int| 0 <= i < files.len() && (#[trigger] files[i]).length == length
}

/// A walk through the library.
#[derive(Debug)]
pub struct Walk {
    pub root: String,
    pub files: Vec<TorrentFile>,
    pub pending: Vec<Pending>,
    pub found: Vec<Candidate>,
}

/// The candidate that a file of a listing is.
pub open spec fn candidate(root: Seq<char>, entry: Entry, c: Candidate) -> bool {
    &&& c.path@ == entry.path@
    &&& entry.kind == (EntryKind::File { length: c.size_bytes })
    &&& c.origin matches CandidateOrigin::Filesystem { root: r } && r@ == root
}

/// The files of a listing that have a length that is looked for.
pub open spec fn files_of(files: Seq<TorrentFile>, entries: Seq<Entry>) -> Seq<Entry> {
    entries.filter(
        |entry: Entry| entry.kind matches EntryKind::File { length } && wanted(files, length),
    )
}

/// The directories of a listing.
pub open spec fn directories_of(entries: Seq<Entry>) -> Seq<Entry> {
    entries.filter(|entry: Entry| entry.kind is Directory)
}

/// The last of the directories to be listed that is not too deep, and what is
/// left with it taken off.
pub open spec fn to_list(pending: Seq<Pending>) -> (Option<Pending>, Seq<Pending>)
    decreases pending.len(),
{
    if pending.len() == 0 {
        (None, pending)
    } else if pending.last().depth > MAX_DEPTH {
        to_list(pending.drop_last())
    } else {
        (Some(pending.last()), pending.drop_last())
    }
}

fn is_wanted(files: &Vec<TorrentFile>, length: u64) -> (r: bool)
    ensures
        r == wanted(files@, length),
{
    let mut i: usize = 0;
    while i < files.len()
        invariant
            i <= files@.len(),
            forall|k: int| 0 <= k < i ==> (#[trigger] files@[k]).length != length,
        decreases files@.len() - i,
    {
        if files[i].length == length {
            return true;
        }
        i += 1;
    }
    false
}

/// What taking in a listing comes to.
pub open spec fn taken_in(
    walk: Walk,
    directory: Pending,
    entries: Seq<Entry>,
    now: Walk,
) -> bool {
    &&& now.root == walk.root
    &&& now.files == walk.files
    &&& {
        let new = files_of(walk.files@, entries);
        let before = walk.found@;
        let after = now.found@;
        &&& after.len() == before.len() + new.len()
        &&& after.take(before.len() as int) == before
        &&& forall|i: int|
            0 <= i < new.len() ==> candidate(
                walk.root@,
                #[trigger] new[i],
                after[before.len() + i],
            )
    }
    &&& {
        let new = directories_of(entries);
        let before = walk.pending@;
        let after = now.pending@;
        &&& after.len() == before.len() + new.len()
        &&& after.take(before.len() as int) == before
        &&& forall|i: int|
            0 <= i < new.len() ==> after[before.len() + i].path@ == (#[trigger] new[i]).path@
                && after[before.len() + i].depth == directory.depth + 1
    }
}

/// How a walk begins, where there is anything to look for.
pub open spec fn walk_begun(root: Seq<char>, query: CandidateQuery, r: Option<Walk>) -> bool {
    match r {
        None => query.files@.len() == 0,
        Some(walk) => {
            &&& query.files@.len() > 0
            &&& walk.root@ == root
            &&& walk.files == query.files
            &&& walk.pending@.len() == 1
            &&& walk.pending@[0].path@ == root
            &&& walk.pending@[0].depth == 0
            &&& walk.found@.len() == 0
        },
    }
}


impl Walk {
    /// Begin at the root. Where no file is looked for, there is nothing to do.
    pub fn start(root: &str, query: CandidateQuery) -> (r: Option<Walk>)
        ensures
            walk_begun(root@, query, r),
    {
        if query.files.len() == 0 {
            return None;
        }
        let mut pending: Vec<Pending> = Vec::new();
        pending.push(Pending { path: root.to_owned(), depth: 0 });
        Some(Walk { root: root.to_owned(), files: query.files, pending, found: Vec::new() })
    }

    /// The directory to list next.
    pub fn next_directory(&mut self) -> (r: Option<Pending>)
        ensures
            r == to_list(old(self).pending@).0,
            final(self).pending@ == to_list(old(self).pending@).1,
            final(self).root == old(self).root,
            final(self).files == old(self).files,
            final(self).found == old(self).found,
            r matches Some(directory) ==> directory.depth <= MAX_DEPTH,
    {
        let ghost all = self.pending@;
        loop
            invariant
                to_list(self.pending@) == to_list(all),
                all == old(self).pending@,
                self.root == old(self).root,
                self.files == old(self).files,
                self.found == old(self).found,
            decreases self.pending@.len(),
        {
            let ghost now = self.pending@;
            match self.pending.pop() {
                None => {
                    assert(self.pending@ =~= now);
                    return None;
                },
                Some(directory) => {
                    assert(now.last() == directory);
                    assert(now.drop_last() =~= self.pending@);
                    if directory.depth <= MAX_DEPTH {
                        return Some(directory);
                    }
                },
            }
        }
    }

    /// Take in what a directory holds.
    pub fn listed(&mut self, directory: &Pending, entries: Vec<Entry>)
        requires
            directory.depth <= MAX_DEPTH,
        ensures
            taken_in(*old(self), *directory, entries@, *final(self)),
    {
        let ghost found = self.found@;
        let ghost pending = self.pending@;
        let ghost files = self.files@;
        let ghost kept = |entry: Entry|
            entry.kind matches EntryKind::File { length } && wanted(files, length);
        let ghost deeper = |entry: Entry| entry.kind is Directory;
        let mut i: usize = 0;
        proof {
            reveal(Seq::filter);
            assert(found.take(found.len() as int) =~= found);
            assert(pending.take(pending.len() as int) =~= pending);
            assert(files_of(files, entries@.take(0)).len() == 0);
            assert(directories_of(entries@.take(0)).len() == 0);
        }
        while i < entries.len()
            invariant
                i <= entries@.len(),
                directory.depth <= MAX_DEPTH,
                self.root == old(self).root,
                self.files == old(self).files,
                files == self.files@,
                kept == (|entry: Entry|
                    entry.kind matches EntryKind::File { length } && wanted(files, length)),
                deeper == (|entry: Entry| entry.kind is Directory),
                self.found@.len() == found.len() + files_of(files, entries@.take(i as int)).len(),
                self.found@.take(found.len() as int) == found,
                forall|k: int|
                    0 <= k < files_of(files, entries@.take(i as int)).len() ==> candidate(
                        self.root@,
                        #[trigger] files_of(files, entries@.take(i as int))[k],
                        self.found@[found.len() + k],
                    ),
                self.pending@.len() == pending.len() + directories_of(
                    entries@.take(i as int),
                ).len(),
                self.pending@.take(pending.len() as int) == pending,
                forall|k: int|
                    0 <= k < directories_of(entries@.take(i as int)).len() ==> self.pending@[
                        pending.len() + k
                    ].path@ == (#[trigger] directories_of(entries@.take(i as int))[k]).path@
                        && self.pending@[pending.len() + k].depth == directory.depth + 1,
            decreases entries@.len() - i,
        {
            let ghost before = entries@.take(i as int);
            let ghost after = entries@.take(i + 1);
            let ghost entry = entries@[i as int];
            proof {
                assert(after.drop_last() =~= before);
                assert(after.last() == entry);
                reveal(Seq::filter);
                assert(files_of(files, after) == if kept(entry) {
                    files_of(files, before).push(entry)
                } else {
                    files_of(files, before)
                });
                assert(directories_of(after) == if deeper(entry) {
                    directories_of(before).push(entry)
                } else {
                    directories_of(before)
                });
            }
            let ghost found_before = self.found@;
            let ghost pending_before = self.pending@;
            match entries[i].kind {
                EntryKind::Symlink => {},
                EntryKind::Directory => {
                    self.pending.push(
                        Pending { path: entries[i].path.clone(), depth: directory.depth + 1 },
                    );
                },
                EntryKind::File { length } => {
                    if is_wanted(&self.files, length) {
                        self.found.push(
                            Candidate {
                                path: entries[i].path.clone(),
                                size_bytes: length,
                                origin: CandidateOrigin::Filesystem { root: self.root.clone() },
                            },
                        );
                    }
                },
                EntryKind::Other => {},
            }
            proof {
                assert(self.found@.take(found.len() as int) =~= found_before.take(
                    found.len() as int,
                ));
                assert(self.pending@.take(pending.len() as int) =~= pending_before.take(
                    pending.len() as int,
                ));
            }
            i += 1;
        }
        assert(entries@.take(i as int) =~= entries@);
    }

    /// What was found, in the order of paths: the walk order depends on the
    /// filesystem; matching must not.
    pub fn finish(self) -> (r: Vec<Candidate>)
        ensures
            r@.to_multiset() == self.found@.to_multiset(),
            in_order(r@),
    {
        sort_by_path(self.found)
    }
}

/// No candidate comes after one whose path comes after its own.
pub open spec fn in_order(found: Seq<Candidate>) -> bool {
    forall|i: int, j: int|
        0 <= i < j < found.len() ==> !crate::paths::path_before(
            (#[trigger] found[j]).path@,
            (#[trigger] found[i]).path@,
        )
}

proof fn inserted_in_order(sorted: Seq<Candidate>, at: int, item: Candidate)
    requires
        in_order(sorted),
        0 <= at <= sorted.len(),
        at > 0 ==> !crate::paths::path_before(item.path@, sorted[at - 1].path@),
        forall|k: int|
            at <= k < sorted.len() ==> crate::paths::path_before(
                item.path@,
                (#[trigger] sorted[k]).path@,
            ),
    ensures
        in_order(sorted.insert(at, item)),
{
    let now = sorted.insert(at, item);
    assert forall|i: int, j: int| 0 <= i < j < now.len() implies !crate::paths::path_before(
        (#[trigger] now[j]).path@,
        (#[trigger] now[i]).path@,
    ) by {
        let a = if i < at {
            i
        } else {
            i - 1
        };
        let b = if j < at {
            j
        } else {
            j - 1
        };
        if i == at {
            let other = sorted[b].path@;
            crate::paths::paths_are_ordered(item.path@, other, item.path@);
        } else if j == at {
            let other = sorted[a].path@;
            let last = sorted[at - 1].path@;
            if a < at - 1 {
                assert(!crate::paths::path_before(last, other));
            }
            crate::paths::paths_are_ordered(last, other, item.path@);
            crate::paths::paths_are_ordered(other, last, item.path@);
            crate::paths::paths_are_ordered(item.path@, other, last);
            crate::paths::paths_are_ordered(item.path@, last, other);
        } else {
            assert(now[i] == sorted[a]);
            assert(now[j] == sorted[b]);
        }
    }
}

fn sort_by_path(items: Vec<Candidate>) -> (r: Vec<Candidate>)
    ensures
        r@.to_multiset() == items@.to_multiset(),
        in_order(r@),
{
    let ghost all = items@;
    let mut rest = items;
    let mut out: Vec<Candidate> = Vec::new();
    proof {
        out@.to_multiset_ensures();
        assert(out@.to_multiset() =~= vstd::multiset::Multiset::<Candidate>::empty());
        assert(rest@.to_multiset().add(out@.to_multiset()) =~= all.to_multiset());
    }
    while rest.len() > 0
        invariant
            rest@.to_multiset().add(out@.to_multiset()) == all.to_multiset(),
            in_order(out@),
        decreases rest@.len(),
    {
        let ghost before = rest@;
        let item = match rest.pop() {
            Some(item) => item,
            None => return out,
        };
        let mut at: usize = out.len();
        while at > 0 && sorts_before(item.path.as_str(), out[at - 1].path.as_str())
            invariant
                at <= out@.len(),
                forall|k: int|
                    at <= k < out@.len() ==> crate::paths::path_before(
                        item.path@,
                        (#[trigger] out@[k]).path@,
                    ),
            decreases at,
        {
            at -= 1;
        }
        let ghost sorted = out@;
        proof {
            inserted_in_order(sorted, at as int, item);
        }
        out.insert(at, item);
        proof {
            assert(out@ =~= sorted.insert(at as int, item));
            assert(before =~= rest@.push(item));
            rest@.to_multiset_ensures();
            sorted.to_multiset_ensures();
            inserted_multiset(sorted, at as int, item);
            assert(rest@.to_multiset().add(out@.to_multiset()) =~= before.to_multiset().add(
                sorted.to_multiset(),
            ));
        }
    }
    proof {
        rest@.to_multiset_ensures();
        assert(rest@.to_multiset() =~= vstd::multiset::Multiset::<Candidate>::empty());
        assert(out@.to_multiset() =~= all.to_multiset());
    }
    out
}

proof fn inserted_multiset(s: Seq<Candidate>, at: int, item: Candidate)
    requires
        0 <= at <= s.len(),
    ensures
        s.insert(at, item).to_multiset() == s.to_multiset().insert(item),
{
    let front = s.take(at);
    let back = s.skip(at);
    assert(s =~= front + back);
    assert(s.insert(at, item) =~= front.push(item) + back);
    front.to_multiset_ensures();
    vstd::seq_lib::lemma_multiset_commutative(front, back);
    vstd::seq_lib::lemma_multiset_commutative(front.push(item), back);
    assert(s.insert(at, item).to_multiset() =~= s.to_multiset().insert(item));
}

/// What a directory that could not be read comes to.
pub fn cannot_read(directory: &str, why: &str) -> (r: CandidateError)
    ensures
        r matches CandidateError::Io(message) && message@ == "cannot read "@ + directory@ + ": "@
            + why@,
{
    let mut message = "cannot read ".to_owned();
    message.append(directory);
    message.append(": ");
    message.append(why);
    CandidateError::Io(message)
}

/// A media-library root to be walked.
#[derive(Debug, PartialEq, Eq)]
pub struct FilesystemCandidateSource {
    pub label: String,
    pub root: String,
}

impl FilesystemCandidateSource {
    pub fn new(root: &str) -> (r: FilesystemCandidateSource)
        ensures
            r.label@ == "filesystem:"@ + root@,
            r.root@ == root@,
    {
        let mut label = "filesystem:".to_owned();
        label.append(root);
        FilesystemCandidateSource { label, root: root.to_owned() }
    }

    pub fn label(&self) -> (r: &str)
        ensures
            r@ == self.label@,
    {
        self.label.as_str()
    }
}

/// A file of a listing becomes a candidate where some file that is looked for has
/// exactly its length; nothing that is no file does, and no symlink is followed.
pub proof fn files_of_a_wanted_length_are_candidates(
    walk: Walk,
    directory: Pending,
    entries: Seq<Entry>,
    now: Walk,
    e: int,
    c: int,
)
    requires
        taken_in(walk, directory, entries, now),
        0 <= e < entries.len(),
        walk.found@.len() <= c < now.found@.len(),
    ensures
        (exists|w: int|
            0 <= w < walk.files@.len() && entries[e].kind == (EntryKind::File {
                length: (#[trigger] walk.files@[w]).length,
            })) ==> exists|k: int|
            walk.found@.len() <= k < now.found@.len() && (#[trigger] now.found@[k]).path@
                == entries[e].path@ && entries[e].kind == (EntryKind::File {
                length: now.found@[k].size_bytes,
            }),
        exists|s: int|
            0 <= s < entries.len() && (#[trigger] entries[s]).path@ == now.found@[c].path@
                && entries[s].kind == (EntryKind::File { length: now.found@[c].size_bytes }),
        exists|w: int|
            0 <= w < walk.files@.len() && (#[trigger] walk.files@[w]).length
                == now.found@[c].size_bytes,
        now.found@[c].origin matches CandidateOrigin::Filesystem { root } && root@ == walk.root@,
        forall|k: int| 0 <= k < walk.found@.len() ==> #[trigger] now.found@[k] == walk.found@[k],
{
    let files = walk.files@;
    let kept = |entry: Entry|
        entry.kind matches EntryKind::File { length } && wanted(files, length);
    let new = files_of(files, entries);
    assert(new == entries.filter(kept));
    crate::sorting::what_is_kept_of_a_list(entries, kept);
    if exists|w: int|
        0 <= w < files.len() && entries[e].kind == (EntryKind::File {
            length: (#[trigger] files[w]).length,
        }) {
        assert(kept(entries[e]));
        assert(new.contains(entries[e]));
        let i = choose|i: int| 0 <= i < new.len() && new[i] == entries[e];
        assert(candidate(walk.root@, new[i], now.found@[walk.found@.len() + i]));
    }
    let i = c - walk.found@.len();
    assert(candidate(walk.root@, new[i], now.found@[walk.found@.len() + i]));
    assert(kept(new[i]));
    assert(new.contains(new[i]));
    assert(entries.contains(new[i]));
    assert forall|k: int| 0 <= k < walk.found@.len() implies #[trigger] now.found@[k]
        == walk.found@[k] by {
        assert(now.found@.take(walk.found@.len() as int)[k] == now.found@[k]);
    }
}

/// Every directory of a listing is still to be listed, one level further down, and
/// nothing else is.
pub proof fn directories_are_walked_into(
    walk: Walk,
    directory: Pending,
    entries: Seq<Entry>,
    now: Walk,
    e: int,
    p: int,
)
    requires
        taken_in(walk, directory, entries, now),
        0 <= e < entries.len(),
        walk.pending@.len() <= p < now.pending@.len(),
    ensures
        entries[e].kind is Directory ==> exists|k: int|
            walk.pending@.len() <= k < now.pending@.len() && (#[trigger] now.pending@[k]).path@
                == entries[e].path@ && now.pending@[k].depth == directory.depth + 1,
        now.pending@[p].depth == directory.depth + 1,
        exists|s: int|
            0 <= s < entries.len() && (#[trigger] entries[s]).path@ == now.pending@[p].path@
                && entries[s].kind is Directory,
        forall|k: int|
            0 <= k < walk.pending@.len() ==> #[trigger] now.pending@[k] == walk.pending@[k],
{
    let deeper = |entry: Entry| entry.kind is Directory;
    let new = directories_of(entries);
    assert(new == entries.filter(deeper));
    crate::sorting::what_is_kept_of_a_list(entries, deeper);
    if entries[e].kind is Directory {
        assert(deeper(entries[e]));
        assert(new.contains(entries[e]));
        let i = choose|i: int| 0 <= i < new.len() && new[i] == entries[e];
        assert(now.pending@[walk.pending@.len() + i].path@ == new[i].path@);
    }
    let i = p - walk.pending@.len();
    assert(now.pending@[walk.pending@.len() + i].path@ == new[i].path@);
    assert(deeper(new[i]));
    assert(new.contains(new[i]));
    assert(entries.contains(new[i]));
    assert forall|k: int| 0 <= k < walk.pending@.len() implies #[trigger] now.pending@[k]
        == walk.pending@[k] by {
        assert(now.pending@.take(walk.pending@.len() as int)[k] == now.pending@[k]);
    }
}

/// The directory listed next is the last one that is no more than sixteen levels
/// down; those behind it, which are deeper, are dropped, and those before it stay.
pub proof fn the_walk_stops_sixteen_levels_down(pending: Seq<Pending>)
    ensures
        match to_list(pending).0 {
            Some(directory) => {
                let n = to_list(pending).1.len();
                &&& n < pending.len()
                &&& directory == pending[n as int]
                &&& directory.depth <= 16
                &&& to_list(pending).1 == pending.take(n as int)
                &&& forall|k: int| n < k < pending.len() ==> (#[trigger] pending[k]).depth > 16
            },
            None => to_list(pending).1.len() == 0 && forall|k: int|
                0 <= k < pending.len() ==> (#[trigger] pending[k]).depth > 16,
        },
    decreases pending.len(),
{
    if pending.len() > 0 {
        let front = pending.drop_last();
        if pending.last().depth > MAX_DEPTH {
            the_walk_stops_sixteen_levels_down(front);
            let n = to_list(pending).1.len();
            assert forall|k: int| n < k < pending.len() implies (#[trigger] pending[k]).depth
                > 16 by {
                if k < front.len() {
                    assert(front[k] == pending[k]);
                }
            }
            if to_list(pending).0 is Some {
                assert(front.take(n as int) =~= pending.take(n as int));
                assert(front[n as int] == pending[n as int]);
            } else {
                assert forall|k: int| 0 <= k < pending.len() implies (#[trigger] pending[k]).depth
                    > 16 by {
                    if k < front.len() {
                        assert(front[k] == pending[k]);
                    }
                }
            }
        } else {
            assert(front =~= pending.take(pending.len() - 1));
        }
    }
}

/// A walk is made where a file is looked for, and begins at the root with nothing
/// found.
pub proof fn a_walk_begins_at_the_root(root: Seq<char>, query: CandidateQuery, r: Option<Walk>)
    requires
        walk_begun(root, query, r),
    ensures
        r is Some <==> query.files@.len() > 0,
        r matches Some(walk) ==> {
            &&& walk.files@ == query.files@
            &&& walk.root@ == root
            &&& walk.found@.len() == 0
            &&& to_list(walk.pending@).0 matches Some(first)
            &&& first.path@ == root
        },
{
}

} // verus!
