//! Deterministic matching of torrent files to library files.
//!
//! Mechanics only: this module decides *which* file is the best candidate and
//! *how sure* it is. Whether that is good enough to act on is a policy question
//! answered in the repair policy.
//!
//! Determinism matters: the same inputs must always produce the same plan, so
//! a re-run after a crash reaches the same conclusion and the audit trail stays
//! meaningful. Nor does the plan depend on the order in which the candidates
//! come in.

use vstd::prelude::*;

use super::domain::{
    Candidate, FileMatch, MatchConfidence, MatchEvidence, MatchPlan, UnmatchedFile,
    UnmatchedReason,
};
use crate::text::{same_ignoring_case, split};
use crate::torrent::TorrentFile;

verus! {

/// The name of the file itself, at the end of its path in the torrent.
pub open spec fn wanted_name(file: TorrentFile) -> Seq<char> {
    crate::text::fields(file.path@, '/').last()
}

/// Filenames agree if they are equal ignoring case. Deliberately strict:
/// looser comparisons belong where a wrong guess can be caught rather than
/// trusted.
pub open spec fn agree(left: Seq<char>, right: Seq<char>) -> bool {
    crate::text::lowered(left) == crate::text::lowered(right)
}

/// The candidate is of the size that the torrent wants.
pub open spec fn right_size(file: TorrentFile, candidate: Candidate) -> bool {
    candidate.size_bytes == file.length
}

/// The candidate is of the right size and has the right name.
pub open spec fn right_name(file: TorrentFile, candidate: Candidate) -> bool {
    right_size(file, candidate) && agree(candidate.name(), wanted_name(file))
}

/// The candidates of the right size.
pub open spec fn sized(file: TorrentFile, candidates: Seq<Candidate>) -> Seq<Candidate> {
    candidates.filter(|c: Candidate| right_size(file, c))
}

/// The candidates of the right size and name.
pub open spec fn named(file: TorrentFile, candidates: Seq<Candidate>) -> Seq<Candidate> {
    candidates.filter(|c: Candidate| right_name(file, c))
}

/// The match of `file` with `chosen`.
pub open spec fn pairing(
    file: TorrentFile,
    chosen: Candidate,
    right_sized: nat,
    name_matches: bool,
) -> FileMatch {
    FileMatch {
        torrent_path: file.path,
        length: file.length,
        source: chosen.path,
        origin: chosen.origin,
        confidence: if name_matches {
            MatchConfidence::Probable
        } else {
            MatchConfidence::Ambiguous
        },
        evidence: MatchEvidence {
            size_matches: true,
            name_matches,
            candidates_with_matching_size: right_sized as usize,
            piece_verified: false,
        },
    }
}

/// What becomes of one file.
///
/// Exact size is the only hard filter there is without reading bytes. Among
/// the files of the right size, the only one with the right name is the
/// obvious pick; the only file of the right size is plausible even where its
/// name disagrees; anything else is left to a human.
pub open spec fn judged(file: TorrentFile, candidates: Seq<Candidate>) -> Result<
    FileMatch,
    UnmatchedReason,
> {
    let count = sized(file, candidates).len();
    if count == 0 {
        Err(UnmatchedReason::NoCandidate)
    } else if named(file, candidates).len() == 1 {
        Ok(pairing(file, named(file, candidates)[0], count, true))
    } else if count == 1 {
        Ok(pairing(file, sized(file, candidates)[0], count, false))
    } else {
        Err(UnmatchedReason::Ambiguous { candidates: count as usize })
    }
}

/// The files that got a candidate, in the torrent's order.
pub open spec fn matches_of(files: Seq<TorrentFile>, candidates: Seq<Candidate>) -> Seq<FileMatch>
    decreases files.len(),
{
    if files.len() == 0 {
        Seq::empty()
    } else {
        let front = matches_of(files.drop_last(), candidates);
        match judged(files.last(), candidates) {
            Ok(found) => front.push(found),
            Err(_) => front,
        }
    }
}

/// The files that got none, in the torrent's order.
pub open spec fn misses_of(files: Seq<TorrentFile>, candidates: Seq<Candidate>) -> Seq<
    UnmatchedFile,
>
    decreases files.len(),
{
    if files.len() == 0 {
        Seq::empty()
    } else {
        let front = misses_of(files.drop_last(), candidates);
        match judged(files.last(), candidates) {
            Ok(_) => front,
            Err(reason) => front.push(
                UnmatchedFile {
                    torrent_path: files.last().path,
                    length: files.last().length,
                    reason,
                },
            ),
        }
    }
}

/// The last part of a path.
fn last_part(path: &str) -> (r: String)
    ensures
        r@ == crate::text::fields(path@, '/').last(),
{
    let mut parts = split(path, '/');
    let ghost texts = crate::text::texts(parts@);
    match parts.pop() {
        Some(last) => {
            assert(texts.last() == last@);
            last
        },
        None => String::new(),
    }
}

/// The candidates that fit a file: how many are of the right size, where the
/// first of those stands, how many have the right name too, and where the
/// first of those stands.
struct Tally {
    sized: usize,
    first_sized: usize,
    named: usize,
    first_named: usize,
}

fn tally(file: &TorrentFile, candidates: &[Candidate]) -> (r: Tally)
    ensures
        r.sized == sized(*file, candidates@).len(),
        r.sized > 0 ==> r.first_sized < candidates@.len() && candidates@[r.first_sized as int]
            == sized(*file, candidates@)[0],
        r.named == named(*file, candidates@).len(),
        r.named > 0 ==> r.first_named < candidates@.len() && candidates@[r.first_named as int]
            == named(*file, candidates@)[0],
{
    let wanted = last_part(file.path.as_str());
    let ghost by_size = |c: Candidate| right_size(*file, c);
    let ghost by_name = |c: Candidate| right_name(*file, c);
    let mut r = Tally { sized: 0, first_sized: 0, named: 0, first_named: 0 };
    let mut i: usize = 0;
    proof {
        reveal(Seq::filter);
    }
    while i < candidates.len()
        invariant
            i <= candidates@.len(),
            wanted@ == wanted_name(*file),
            by_size == (|c: Candidate| right_size(*file, c)),
            by_name == (|c: Candidate| right_name(*file, c)),
            r.sized == candidates@.take(i as int).filter(by_size).len() <= i,
            r.sized > 0 ==> r.first_sized < i && candidates@[r.first_sized as int]
                == candidates@.take(i as int).filter(by_size)[0],
            r.named == candidates@.take(i as int).filter(by_name).len() <= i,
            r.named > 0 ==> r.first_named < i && candidates@[r.first_named as int]
                == candidates@.take(i as int).filter(by_name)[0],
        decreases candidates@.len() - i,
    {
        proof {
            reveal(Seq::filter);
            assert(candidates@.take(i + 1).drop_last() =~= candidates@.take(i as int));
            assert(candidates@.take(i + 1).last() == candidates@[i as int]);
        }
        let fits: bool = candidates[i].size_bytes == file.length;
        assert(fits == by_size(candidates@[i as int]));
        if fits {
            if r.sized == 0 {
                r.first_sized = i;
            }
            r.sized = r.sized + 1;
        }
        let agrees: bool = fits && same_ignoring_case(
            candidates[i].file_name().as_str(),
            wanted.as_str(),
        );
        assert(agrees == by_name(candidates@[i as int]));
        if agrees {
            if r.named == 0 {
                r.first_named = i;
            }
            r.named = r.named + 1;
        }
        i += 1;
    }
    assert(candidates@.take(i as int) =~= candidates@);
    r
}

/// The one with the right name is among those of the right size.
proof fn named_are_sized(file: TorrentFile, candidates: Seq<Candidate>)
    ensures
        named(file, candidates).len() <= sized(file, candidates).len(),
    decreases candidates.len(),
{
    reveal(Seq::filter);
    if candidates.len() > 0 {
        named_are_sized(file, candidates.drop_last());
    }
}

/// Pair every torrent file with the best library candidate we can justify.
pub fn plan_matches(files: &[TorrentFile], candidates: &[Candidate]) -> (plan: MatchPlan)
    ensures
        plan.matched@ == matches_of(files@, candidates@),
        plan.unmatched@ == misses_of(files@, candidates@),
{
    let mut matched: Vec<FileMatch> = Vec::new();
    let mut unmatched: Vec<UnmatchedFile> = Vec::new();
    let mut i: usize = 0;
    while i < files.len()
        invariant
            i <= files@.len(),
            matched@ == matches_of(files@.take(i as int), candidates@),
            unmatched@ == misses_of(files@.take(i as int), candidates@),
        decreases files@.len() - i,
    {
        let file = &files[i];
        proof {
            assert(files@.take(i + 1).drop_last() =~= files@.take(i as int));
            assert(files@.take(i + 1).last() == *file);
            named_are_sized(*file, candidates@);
        }
        let found = tally(file, candidates);
        if found.sized == 0 {
            unmatched.push(
                UnmatchedFile {
                    torrent_path: file.path.clone(),
                    length: file.length,
                    reason: UnmatchedReason::NoCandidate,
                },
            );
        } else if found.named == 1 || found.sized == 1 {
            // Several right-sized files but only one with the right name is
            // still the obvious pick; the collision is in the evidence. One
            // right-sized file whose name disagrees is plausible, unproven.
            let name_matches: bool = found.named == 1;
            let chosen = if name_matches {
                &candidates[found.first_named]
            } else {
                &candidates[found.first_sized]
            };
            matched.push(
                FileMatch {
                    torrent_path: file.path.clone(),
                    length: file.length,
                    source: chosen.path.clone(),
                    origin: chosen.origin.clone(),
                    confidence: if name_matches {
                        MatchConfidence::Probable
                    } else {
                        MatchConfidence::Ambiguous
                    },
                    evidence: MatchEvidence {
                        size_matches: true,
                        name_matches,
                        candidates_with_matching_size: found.sized,
                        piece_verified: false,
                    },
                },
            );
        } else {
            unmatched.push(
                UnmatchedFile {
                    torrent_path: file.path.clone(),
                    length: file.length,
                    reason: UnmatchedReason::Ambiguous { candidates: found.sized },
                },
            );
        }
        i += 1;
    }
    assert(files@.take(i as int) =~= files@);
    MatchPlan { matched, unmatched }
}

// ---------------------------------------------------------------------------
// Laws
// ---------------------------------------------------------------------------

/// Every file is either matched or unmatched, never both and never neither.
pub proof fn every_file_is_accounted_for(files: Seq<TorrentFile>, candidates: Seq<Candidate>)
    ensures
        matches_of(files, candidates).len() + misses_of(files, candidates).len() == files.len(),
    decreases files.len(),
{
    if files.len() > 0 {
        every_file_is_accounted_for(files.drop_last(), candidates);
    }
}

/// A plan without misses pairs the files one by one, in order.
pub proof fn a_complete_plan_pairs_every_file(files: Seq<TorrentFile>, candidates: Seq<Candidate>)
    requires
        misses_of(files, candidates).len() == 0,
    ensures
        matches_of(files, candidates).len() == files.len(),
        forall|i: int|
            0 <= i < files.len() ==> judged(files[i], candidates) == Ok::<
                FileMatch,
                UnmatchedReason,
            >(#[trigger] matches_of(files, candidates)[i]),
    decreases files.len(),
{
    every_file_is_accounted_for(files, candidates);
    if files.len() > 0 {
        a_complete_plan_pairs_every_file(files.drop_last(), candidates);
        let front = matches_of(files.drop_last(), candidates);
        assert forall|i: int| 0 <= i < files.len() implies judged(files[i], candidates) == Ok::<
            FileMatch,
            UnmatchedReason,
        >(#[trigger] matches_of(files, candidates)[i]) by {
            if i < files.len() - 1 {
                assert(files.drop_last()[i] == files[i]);
                assert(matches_of(files, candidates)[i] == front[i]);
            }
        }
    }
}

/// Size is evidence, not proof: a match is never more than probable, and
/// probable only where exactly one right-sized file has the right name.
pub proof fn size_alone_never_exceeds_ambiguous(file: TorrentFile, candidates: Seq<Candidate>)
    ensures
        judged(file, candidates) matches Ok(found) ==> {
            &&& found.confidence.rank() <= MatchConfidence::Probable.rank()
            &&& found.confidence is Probable <==> named(file, candidates).len() == 1
            &&& found.evidence.name_matches <==> found.confidence is Probable
            &&& !found.evidence.piece_verified
        },
{
}

/// What a match names is one of the candidates, and of the right size.
pub proof fn a_match_is_a_candidate(file: TorrentFile, candidates: Seq<Candidate>)
    ensures
        judged(file, candidates) matches Ok(found) ==> exists|i: int|
            0 <= i < candidates.len() && right_size(file, #[trigger] candidates[i])
                && candidates[i].path == found.source && candidates[i].origin == found.origin,
{
    let by_size = |c: Candidate| right_size(file, c);
    let by_name = |c: Candidate| right_name(file, c);
    filter_keeps_members(candidates, by_size);
    filter_keeps_members(candidates, by_name);
    if named(file, candidates).len() == 1 {
        let c = named(file, candidates)[0];
        assert(by_name(c));
        assert(candidates.contains(c));
    } else if sized(file, candidates).len() == 1 {
        let c = sized(file, candidates)[0];
        assert(by_size(c));
        assert(candidates.contains(c));
    }
}

proof fn filter_keeps_members(s: Seq<Candidate>, keep: spec_fn(Candidate) -> bool)
    ensures
        forall|i: int|
            0 <= i < s.filter(keep).len() ==> s.contains(#[trigger] s.filter(keep)[i]) && keep(
                s.filter(keep)[i],
            ),
    decreases s.len(),
{
    reveal(Seq::filter);
    if s.len() > 0 {
        let front = s.drop_last();
        filter_keeps_members(front, keep);
        assert forall|i: int| 0 <= i < s.filter(keep).len() implies s.contains(
            #[trigger] s.filter(keep)[i],
        ) && keep(s.filter(keep)[i]) by {
            if i < front.filter(keep).len() {
                let x = front.filter(keep)[i];
                assert(s.filter(keep)[i] == x);
                assert(front.contains(x));
                let k = choose|k: int| 0 <= k < front.len() && front[k] == x;
                assert(s[k] == x);
            } else {
                assert(s[s.len() - 1] == s.filter(keep)[i]);
            }
        }
    }
}

/// Filtering and forgetting the order go together.
proof fn filter_to_multiset(s: Seq<Candidate>, keep: spec_fn(Candidate) -> bool)
    ensures
        s.filter(keep).to_multiset() =~= s.to_multiset().filter(keep),
    decreases s.len(),
{
    broadcast use vstd::multiset::group_multiset_axioms;

    reveal(Seq::filter);
    if s.len() == 0 {
        assert(s =~= Seq::<Candidate>::empty());
        s.to_multiset_ensures();
        assert(s.to_multiset() =~= vstd::multiset::Multiset::empty());
        assert(s.filter(keep).to_multiset() =~= s.to_multiset().filter(keep));
    } else {
        let front = s.drop_last();
        filter_to_multiset(front, keep);
        front.to_multiset_ensures();
        front.filter(keep).to_multiset_ensures();
        assert(front.push(s.last()) =~= s);
        assert(s.to_multiset() =~= front.to_multiset().insert(s.last()));
        if keep(s.last()) {
            assert(s.filter(keep).to_multiset() =~= front.filter(keep).to_multiset().insert(
                s.last(),
            ));
        }
        assert(s.filter(keep).to_multiset() =~= s.to_multiset().filter(keep));
    }
}

/// The same elements in another order: as many pass, and the only one that
/// passes is the same.
proof fn same_survivors(a: Seq<Candidate>, b: Seq<Candidate>, keep: spec_fn(Candidate) -> bool)
    requires
        a.to_multiset() == b.to_multiset(),
    ensures
        a.filter(keep).len() == b.filter(keep).len(),
        a.filter(keep).len() == 1 ==> a.filter(keep)[0] == b.filter(keep)[0],
{
    broadcast use vstd::multiset::group_multiset_axioms;

    filter_to_multiset(a, keep);
    filter_to_multiset(b, keep);
    let (x, y) = (a.filter(keep), b.filter(keep));
    x.to_multiset_ensures();
    y.to_multiset_ensures();
    assert(x.to_multiset() == y.to_multiset());
    assert(x.len() == x.to_multiset().len());
    assert(y.len() == y.to_multiset().len());
    if x.len() == 1 {
        assert(x.contains(x[0]));
        assert(x.to_multiset().count(x[0]) > 0);
        assert(y.to_multiset().count(x[0]) > 0);
        assert(y.contains(x[0]));
    }
}

/// The plan does not depend on the order in which the candidates came in.
pub proof fn candidate_order_does_not_matter(
    files: Seq<TorrentFile>,
    a: Seq<Candidate>,
    b: Seq<Candidate>,
)
    requires
        a.to_multiset() == b.to_multiset(),
    ensures
        matches_of(files, a) == matches_of(files, b),
        misses_of(files, a) == misses_of(files, b),
    decreases files.len(),
{
    if files.len() > 0 {
        candidate_order_does_not_matter(files.drop_last(), a, b);
        let file = files.last();
        same_survivors(a, b, |c: Candidate| right_size(file, c));
        same_survivors(a, b, |c: Candidate| right_name(file, c));
        assert(judged(file, a) == judged(file, b));
    }
}

/// What passes a filter, seen from the whole: none where none fits, the one that
/// fits where one does, and at least two where two do.
proof fn filter_counts(s: Seq<Candidate>, keep: spec_fn(Candidate) -> bool)
    ensures
        s.filter(keep).len() == 0 <==> (forall|i: int|
            0 <= i < s.len() ==> !keep(#[trigger] s[i])),
        forall|i: int|
            #![trigger s[i]]
            0 <= i < s.len() && keep(s[i]) && (forall|j: int|
                0 <= j < s.len() && j != i ==> !keep(#[trigger] s[j])) ==> s.filter(keep).len() == 1
                && s.filter(keep)[0] == s[i],
        forall|i: int, j: int|
            #![trigger s[i], s[j]]
            0 <= i < j < s.len() && keep(s[i]) && keep(s[j]) ==> s.filter(keep).len() >= 2,
    decreases s.len(),
{
    reveal(Seq::filter);
    if s.len() > 0 {
        let front = s.drop_last();
        let end = s.len() - 1;
        filter_counts(front, keep);
        assert forall|i: int| 0 <= i < end implies #[trigger] s[i] == front[i] by {}
        if s.filter(keep).len() == 0 {
            assert forall|i: int| 0 <= i < s.len() implies !keep(#[trigger] s[i]) by {
                if i < end {
                    assert(!keep(front[i]));
                }
            }
        }
        if forall|i: int| 0 <= i < s.len() ==> !keep(#[trigger] s[i]) {
            assert forall|i: int| 0 <= i < front.len() implies !keep(#[trigger] front[i]) by {
                assert(!keep(s[i]));
            }
            assert(!keep(s[end]));
        }
        assert forall|i: int|
            #![trigger s[i]]
            0 <= i < s.len() && keep(s[i]) && (forall|j: int|
                0 <= j < s.len() && j != i ==> !keep(
                    #[trigger] s[j],
                )) implies s.filter(keep).len() == 1 && s.filter(keep)[0] == s[i] by {
            assert forall|j: int| 0 <= j < front.len() && j != i implies !keep(
                #[trigger] front[j],
            ) by {
                assert(!keep(s[j]));
            }
            if i < end {
                assert(!keep(s[end]));
                assert(front[i] == s[i]);
            } else {
                assert(front.filter(keep).len() == 0);
            }
        }
        assert forall|i: int, j: int|
            #![trigger s[i], s[j]]
            0 <= i < j < s.len() && keep(s[i]) && keep(s[j]) implies s.filter(keep).len() >= 2 by {
            if j < end {
                assert(front[i] == s[i] && front[j] == s[j]);
            } else {
                assert(front[i] == s[i]);
                assert(front.filter(keep).len() > 0);
            }
        }
    }
}

/// A file has no candidate exactly where no library file has its length.
pub proof fn a_file_without_candidates_has_none_of_its_length(
    file: TorrentFile,
    candidates: Seq<Candidate>,
)
    ensures
        judged(file, candidates) == Err::<FileMatch, UnmatchedReason>(
            UnmatchedReason::NoCandidate,
        ) <==> (forall|i: int|
            0 <= i < candidates.len() ==> (#[trigger] candidates[i]).size_bytes != file.length),
{
    let by_size = |c: Candidate| right_size(file, c);
    filter_counts(candidates, by_size);
    assert(forall|i: int|
        0 <= i < candidates.len() ==> by_size(#[trigger] candidates[i]) == (
        candidates[i].size_bytes == file.length));
    if sized(file, candidates).len() == 0 {
        assert forall|i: int| 0 <= i < candidates.len() implies (
        #[trigger] candidates[i]).size_bytes != file.length by {
            assert(!by_size(candidates[i]));
        }
    }
    if forall|i: int|
        0 <= i < candidates.len() ==> (#[trigger] candidates[i]).size_bytes != file.length {
        assert forall|i: int| 0 <= i < candidates.len() implies !by_size(
            #[trigger] candidates[i],
        ) by {}
    }
}

/// The only library file of the right length whose name is the torrent file's,
/// ignoring case, is chosen, however many others have that length.
pub proof fn the_only_file_of_the_right_name_and_length_is_chosen(
    file: TorrentFile,
    candidates: Seq<Candidate>,
    i: int,
)
    requires
        0 <= i < candidates.len(),
        candidates[i].size_bytes == file.length,
        crate::text::lowered(candidates[i].name()) == crate::text::lowered(
            crate::text::fields(file.path@, '/').last(),
        ),
        forall|j: int|
            0 <= j < candidates.len() && j != i && (#[trigger] candidates[j]).size_bytes
                == file.length ==> crate::text::lowered(candidates[j].name())
                != crate::text::lowered(crate::text::fields(file.path@, '/').last()),
    ensures
        judged(file, candidates) matches Ok(found) && {
            &&& found.source == candidates[i].path
            &&& found.origin == candidates[i].origin
            &&& found.torrent_path == file.path
            &&& found.length == file.length
            &&& found.confidence == MatchConfidence::Probable
            &&& found.evidence.size_matches
            &&& found.evidence.name_matches
        },
{
    let by_size = |c: Candidate| right_size(file, c);
    let by_name = |c: Candidate| right_name(file, c);
    filter_counts(candidates, by_size);
    filter_counts(candidates, by_name);
    assert(by_size(candidates[i]));
    assert(by_name(candidates[i]));
    assert forall|j: int| 0 <= j < candidates.len() && j != i implies !by_name(
        #[trigger] candidates[j],
    ) by {}
}

/// The only library file of the right length is chosen whatever its name, and is
/// probable exactly where the name is the torrent file's, ignoring case.
pub proof fn the_only_file_of_the_right_length_is_chosen(
    file: TorrentFile,
    candidates: Seq<Candidate>,
    i: int,
)
    requires
        0 <= i < candidates.len(),
        candidates[i].size_bytes == file.length,
        forall|j: int|
            0 <= j < candidates.len() && j != i ==> (#[trigger] candidates[j]).size_bytes
                != file.length,
    ensures
        judged(file, candidates) matches Ok(found) && {
            &&& found.source == candidates[i].path
            &&& found.origin == candidates[i].origin
            &&& found.torrent_path == file.path
            &&& found.length == file.length
            &&& found.evidence.candidates_with_matching_size == 1
            &&& found.confidence == if crate::text::lowered(candidates[i].name())
                == crate::text::lowered(crate::text::fields(file.path@, '/').last()) {
                MatchConfidence::Probable
            } else {
                MatchConfidence::Ambiguous
            }
        },
{
    let by_size = |c: Candidate| right_size(file, c);
    let by_name = |c: Candidate| right_name(file, c);
    filter_counts(candidates, by_size);
    filter_counts(candidates, by_name);
    assert(by_size(candidates[i]));
    assert forall|j: int| 0 <= j < candidates.len() && j != i implies !by_size(
        #[trigger] candidates[j],
    ) && !by_name(candidates[j]) by {}
    if by_name(candidates[i]) {
        assert(named(file, candidates).len() == 1);
    } else {
        assert forall|j: int| 0 <= j < candidates.len() implies !by_name(
            #[trigger] candidates[j],
        ) by {}
    }
}

/// Of several library files of the right length, none is chosen where no name
/// or more than one name is the torrent file's: that is left to a human.
pub proof fn a_tie_is_not_broken(file: TorrentFile, candidates: Seq<Candidate>, i: int, j: int)
    requires
        0 <= i < j < candidates.len(),
        candidates[i].size_bytes == file.length,
        candidates[j].size_bytes == file.length,
        ({
            let wanted = crate::text::lowered(crate::text::fields(file.path@, '/').last());
            ||| crate::text::lowered(candidates[i].name()) == wanted && crate::text::lowered(
                candidates[j].name(),
            ) == wanted
            ||| forall|k: int|
                0 <= k < candidates.len() && (#[trigger] candidates[k]).size_bytes == file.length
                    ==> crate::text::lowered(candidates[k].name()) != wanted
        }),
    ensures
        judged(file, candidates) matches Err(UnmatchedReason::Ambiguous { .. }),
{
    let by_size = |c: Candidate| right_size(file, c);
    let by_name = |c: Candidate| right_name(file, c);
    filter_counts(candidates, by_size);
    filter_counts(candidates, by_name);
    assert(by_size(candidates[i]) && by_size(candidates[j]));
    assert(sized(file, candidates).len() >= 2);
    if by_name(candidates[i]) && by_name(candidates[j]) {
        assert(named(file, candidates).len() >= 2);
    } else {
        assert forall|k: int| 0 <= k < candidates.len() implies !by_name(
            #[trigger] candidates[k],
        ) by {}
        assert(named(file, candidates).len() == 0);
    }
}

/// A miss names a file of the torrent that got no candidate, and a match one
/// that did; a file whose verdict is a match is among the matches.
pub proof fn verdicts_are_kept_file_by_file(
    files: Seq<TorrentFile>,
    candidates: Seq<Candidate>,
    n: int,
)
    requires
        0 <= n < files.len(),
    ensures
        judged(files[n], candidates) matches Ok(found) ==> matches_of(files, candidates).contains(
            found,
        ),
        judged(files[n], candidates) matches Err(why) ==> exists|k: int|
            0 <= k < misses_of(files, candidates).len() && (#[trigger] misses_of(
                files,
                candidates,
            )[k]).torrent_path == files[n].path && misses_of(files, candidates)[k].reason == why
                && misses_of(files, candidates)[k].length == files[n].length,
    decreases files.len(),
{
    let front = files.drop_last();
    if n < files.len() - 1 {
        verdicts_are_kept_file_by_file(front, candidates, n);
        assert(front[n] == files[n]);
        match judged(files[n], candidates) {
            Ok(found) => {
                let k = choose|k: int|
                    0 <= k < matches_of(front, candidates).len() && matches_of(front, candidates)[k]
                        == found;
                assert(matches_of(files, candidates)[k] == found);
            },
            Err(why) => {
                let k = choose|k: int|
                    0 <= k < misses_of(front, candidates).len() && (#[trigger] misses_of(
                        front,
                        candidates,
                    )[k]).torrent_path == files[n].path && misses_of(front, candidates)[k].reason
                        == why && misses_of(front, candidates)[k].length == files[n].length;
                assert(misses_of(files, candidates)[k] == misses_of(front, candidates)[k]);
            },
        }
    } else {
        match judged(files[n], candidates) {
            Ok(found) => {
                assert(matches_of(files, candidates).last() == found);
                assert(matches_of(files, candidates)[matches_of(files, candidates).len() - 1]
                    == found);
            },
            Err(why) => {
                let k = misses_of(files, candidates).len() - 1;
                assert(misses_of(files, candidates)[k].reason == why);
            },
        }
    }
}

/// Every miss is some file's.
pub proof fn every_miss_is_a_file(files: Seq<TorrentFile>, candidates: Seq<Candidate>, k: int)
    requires
        0 <= k < misses_of(files, candidates).len(),
    ensures
        exists|n: int|
            0 <= n < files.len() && judged(#[trigger] files[n], candidates) == Err::<
                FileMatch,
                UnmatchedReason,
            >(misses_of(files, candidates)[k].reason) && files[n].path == misses_of(
                files,
                candidates,
            )[k].torrent_path,
    decreases files.len(),
{
    let front = files.drop_last();
    if k < misses_of(front, candidates).len() {
        every_miss_is_a_file(front, candidates, k);
        let n = choose|n: int|
            0 <= n < front.len() && judged(#[trigger] front[n], candidates) == Err::<
                FileMatch,
                UnmatchedReason,
            >(misses_of(front, candidates)[k].reason) && front[n].path == misses_of(
                front,
                candidates,
            )[k].torrent_path;
        assert(files[n] == front[n]);
    } else {
        assert(files[files.len() - 1] == files.last());
    }
}

/// How many candidates had the right length is told with a match and with a tie.
pub proof fn the_candidates_of_the_right_length_are_counted(
    file: TorrentFile,
    candidates: Seq<Candidate>,
)
    requires
        candidates.len() <= usize::MAX,
    ensures
        ({
            let count = candidates.filter(|c: Candidate| c.size_bytes == file.length).len();
            &&& judged(file, candidates) matches Ok(found)
                ==> found.evidence.candidates_with_matching_size == count
            &&& judged(file, candidates) matches Err(UnmatchedReason::Ambiguous { candidates: n })
                ==> n == count
        }),
{
    let by_size = |c: Candidate| right_size(file, c);
    let by_length = |c: Candidate| c.size_bytes == file.length;
    assert(by_size =~= by_length);
    assert(sized(file, candidates) == candidates.filter(by_size));
    candidates.lemma_filter_len(by_size);
}

} // verus!
