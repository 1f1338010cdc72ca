//! Piece-hash verification: which pieces tell about which file.
//!
//! `plan_matches` picks a candidate from size and name alone, which is
//! evidence, not proof: two different encodes of the same episode can be
//! byte-identical in length. Hashing a bounded number of a torrent's pieces
//! against a chosen candidate's bytes turns "probably this one" into
//! "verified".
//!
//! Given a piece index and a file's position in the torrent, there is exactly
//! one right answer, and getting it wrong produces a confident wrong
//! verification, the worst failure mode available.

use std::ops::Range;

use vstd::prelude::*;

use crate::torrent::TorrentFile;

verus! {

/// Where `files[index]` begins in the concatenated stream a `.torrent`'s
/// pieces are hashed over.
pub open spec fn file_start(files: Seq<TorrentFile>, index: int) -> int {
    crate::torrent::domain::total_of(files.take(index))
}

/// Where piece `index` begins in that stream.
pub open spec fn piece_start(index: int, piece_length: int) -> int {
    index * piece_length
}

/// Where it ends: the last piece is cut off at the end of the torrent.
pub open spec fn piece_end(index: int, piece_length: int, total_length: int) -> int {
    let end = piece_start(index, piece_length) + piece_length;
    if end <= total_length {
        end
    } else {
        total_length
    }
}

/// The piece lies inside the range.
pub open spec fn piece_inside(
    start: int,
    end: int,
    index: int,
    piece_length: int,
    total_length: int,
) -> bool {
    start <= piece_start(index, piece_length) && piece_end(index, piece_length, total_length) <= end
}

/// The byte range `files[index]` occupies in the concatenated stream a
/// `.torrent`'s pieces are hashed over. Files are laid out back to back, in
/// the order the torrent lists them.
pub fn file_byte_range(files: &[TorrentFile], index: usize) -> (r: Range<u64>)
    requires
        index < files@.len(),
        crate::torrent::domain::total_of(files@) <= u64::MAX,
    ensures
        r.start == file_start(files@, index as int),
        r.end == r.start + files@[index as int].length,
{
    let mut start: u64 = 0;
    let mut i: usize = 0;
    while i < index
        invariant
            i <= index < files@.len(),
            start == file_start(files@, i as int),
            crate::torrent::domain::total_of(files@) <= u64::MAX,
        decreases index - i,
    {
        proof {
            assert(files@.take(i + 1).drop_last() =~= files@.take(i as int));
            crate::torrent::domain::total_grows(files@, i + 1);
        }
        start = start + files[i].length;
        i += 1;
    }
    proof {
        assert(files@.take(index + 1).drop_last() =~= files@.take(index as int));
        crate::torrent::domain::total_grows(files@, index + 1);
    }
    let end: u64 = start + files[index].length;
    Range { start, end }
}

/// The byte range `piece_index` covers in that same stream. The final piece
/// is shorter than `piece_length` whenever `total_length` is not an exact
/// multiple of it; clamping to `total_length` is what makes that piece's
/// range come out right instead of running past the end of the torrent.
pub fn piece_byte_range(piece_index: usize, piece_length: u64, total_length: u64) -> (r: Range<u64>)
    requires
        (piece_index + 1) * piece_length <= u64::MAX,
    ensures
        r.start == piece_start(piece_index as int, piece_length as int),
        r.end == piece_end(piece_index as int, piece_length as int, total_length as int),
{
    assert((piece_index + 1) * piece_length == piece_index * piece_length + piece_length)
        by (nonlinear_arith);
    assert(0 <= piece_index * piece_length) by (nonlinear_arith);
    let start: u64 = piece_index as u64 * piece_length;
    let full: u64 = start + piece_length;
    let end: u64 = if full <= total_length {
        full
    } else {
        total_length
    };
    Range { start, end }
}

/// The piece numbers up to `count` that lie inside the range, in order.
pub open spec fn inside(
    start: int,
    end: int,
    piece_length: int,
    count: nat,
    total_length: int,
) -> Seq<usize>
    decreases count,
{
    if count == 0 {
        Seq::empty()
    } else {
        let front = inside(start, end, piece_length, (count - 1) as nat, total_length);
        if piece_inside(start, end, count - 1, piece_length, total_length) {
            front.push((count - 1) as usize)
        } else {
            front
        }
    }
}

/// Which pieces fall entirely inside `file_range`: the only ones that can be
/// verified against a single candidate file.
///
/// A piece that straddles a file boundary satisfies neither file's
/// containment check, so it is absent from both files' lists rather than
/// mishandled.
pub fn pieces_within_file(
    file_range: &Range<u64>,
    piece_length: u64,
    piece_count: usize,
    total_length: u64,
) -> (r: Vec<usize>)
    requires
        piece_count * piece_length <= u64::MAX,
    ensures
        r@ == inside(
            file_range.start as int,
            file_range.end as int,
            piece_length as int,
            piece_count as nat,
            total_length as int,
        ),
{
    let mut out: Vec<usize> = Vec::new();
    let mut i: usize = 0;
    while i < piece_count
        invariant
            i <= piece_count,
            piece_count * piece_length <= u64::MAX,
            out@ == inside(
                file_range.start as int,
                file_range.end as int,
                piece_length as int,
                i as nat,
                total_length as int,
            ),
        decreases piece_count - i,
    {
        assert((i + 1) * piece_length <= piece_count * piece_length) by (nonlinear_arith)
            requires
                i < piece_count,
        ;
        let piece = piece_byte_range(i, piece_length, total_length);
        if piece.start >= file_range.start && piece.end <= file_range.end {
            out.push(i);
        }
        i += 1;
    }
    out
}

/// Without neighbours that are equal.
pub open spec fn deduped(s: Seq<usize>) -> Seq<usize>
    decreases s.len(),
{
    if s.len() == 0 {
        s
    } else {
        let front = deduped(s.drop_last());
        if front.len() > 0 && front.last() == s.last() {
            front
        } else {
            front.push(s.last())
        }
    }
}

/// The position of choice `k` of `count` among `len` that are available: the
/// first for the first, the last for the last, evenly spread between.
pub open spec fn spread(k: int, len: int, count: int) -> int {
    let gaps = if count > 1 {
        count - 1
    } else {
        1
    };
    k * (len - 1) / gaps
}

/// The pieces at the spread positions.
pub open spec fn spread_out(available: Seq<usize>, count: nat) -> Seq<usize> {
    Seq::new(count, |k: int| available[spread(k, available.len() as int, count as int)])
}

/// What `select_pieces` chooses.
pub open spec fn selection(available: Seq<usize>, count: nat) -> Seq<usize> {
    if count == 0 || available.len() == 0 {
        Seq::empty()
    } else if available.len() <= count {
        available
    } else {
        deduped(spread_out(available, count))
    }
}

proof fn spread_in_range(k: int, len: int, count: int)
    requires
        0 <= k < count < len,
    ensures
        0 <= spread(k, len, count) < len,
        spread(0, len, count) == 0,
        count > 1 ==> spread(count - 1, len, count) == len - 1,
{
    let gaps = if count > 1 {
        count - 1
    } else {
        1
    };
    assert(0 <= k * (len - 1) <= gaps * (len - 1)) by (nonlinear_arith)
        requires
            0 <= k <= gaps,
            len >= 1,
    ;
    vstd::arithmetic::div_mod::lemma_div_is_ordered(0, k * (len - 1), gaps);
    vstd::arithmetic::div_mod::lemma_div_is_ordered(k * (len - 1), gaps * (len - 1), gaps);
    vstd::arithmetic::div_mod::lemma_div_multiples_vanish(len - 1, gaps);
    assert(0int * (len - 1) == 0) by (nonlinear_arith);
    assert(0int / gaps == 0) by (nonlinear_arith)
        requires
            gaps > 0,
    ;
}

/// Choose up to `count` pieces to check out of the ones `pieces_within_file`
/// found available, spread first, last, and as evenly as possible in
/// between: enough to catch truncation, a wrong encode, or a wrong episode
/// without hashing the whole file. Deterministic, so the same plan always
/// checks the same pieces.
pub fn select_pieces(available: &[usize], count: usize) -> (r: Vec<usize>)
    ensures
        r@ == selection(available@, count as nat),
{
    let mut chosen: Vec<usize> = Vec::new();
    if count == 0 || available.len() == 0 {
        return chosen;
    }
    if available.len() <= count {
        return vstd::slice::slice_to_vec(available);
    }
    let last: usize = available.len() - 1;
    let gaps: usize = if count > 1 {
        count - 1
    } else {
        1
    };
    let ghost all = spread_out(available@, count as nat);
    let mut k: usize = 0;
    while k < count
        invariant
            k <= count < available@.len(),
            last == available@.len() - 1,
            gaps == if count > 1 {
                count - 1
            } else {
                1
            },
            all == spread_out(available@, count as nat),
            chosen@ == deduped(all.take(k as int)),
        decreases count - k,
    {
        proof {
            spread_in_range(k as int, available@.len() as int, count as int);
            assert(all.take(k + 1).drop_last() =~= all.take(k as int));
            assert(all.take(k + 1).last() == all[k as int]);
        }
        assert(k as u128 * last as u128 <= 0xffff_ffff_ffff_ffff * 0xffff_ffff_ffff_ffff)
            by (nonlinear_arith)
            requires
                k <= 0xffff_ffff_ffff_ffff,
                last <= 0xffff_ffff_ffff_ffff,
        ;
        let at: usize = (k as u128 * last as u128 / gaps as u128) as usize;
        assert(at == spread(k as int, available@.len() as int, count as int));
        let piece: usize = available[at];
        if chosen.len() == 0 || chosen[chosen.len() - 1] != piece {
            chosen.push(piece);
        }
        k += 1;
    }
    assert(all.take(k as int) =~= all);
    chosen
}

// ---------------------------------------------------------------------------
// Laws
// ---------------------------------------------------------------------------

/// A piece with bytes in it lies inside at most one file, so a piece is never
/// checked against two candidates.
pub proof fn a_piece_belongs_to_at_most_one_file(
    files: Seq<TorrentFile>,
    i: int,
    j: int,
    piece: int,
    piece_length: int,
    total_length: int,
)
    requires
        0 <= i < files.len(),
        0 <= j < files.len(),
        piece_start(piece, piece_length) < piece_end(piece, piece_length, total_length),
        piece_inside(
            file_start(files, i),
            file_start(files, i) + files[i].length,
            piece,
            piece_length,
            total_length,
        ),
        piece_inside(
            file_start(files, j),
            file_start(files, j) + files[j].length,
            piece,
            piece_length,
            total_length,
        ),
    ensures
        i == j,
{
    if i < j {
        files_are_back_to_back(files, i, j);
    } else if j < i {
        files_are_back_to_back(files, j, i);
    }
}

/// A file ends where the next begins, so an earlier one never reaches into a
/// later one.
pub proof fn files_are_back_to_back(files: Seq<TorrentFile>, i: int, j: int)
    requires
        0 <= i < j < files.len(),
    ensures
        file_start(files, i) + files[i].length == file_start(files, i + 1),
        file_start(files, i) + files[i].length <= file_start(files, j),
{
    assert(files.take(i + 1).drop_last() =~= files.take(i));
    crate::torrent::domain::total_grows(files.take(j), i + 1);
    assert(files.take(j).take(i + 1) =~= files.take(i + 1));
}

/// A piece number is listed exactly when it is one of the torrent's and lies
/// inside the range; the list is in increasing order.
pub proof fn inside_lists_what_lies_inside(
    start: int,
    end: int,
    piece_length: int,
    count: nat,
    total_length: int,
)
    requires
        count <= usize::MAX,
    ensures
        forall|p: usize| #[trigger]
            inside(start, end, piece_length, count, total_length).contains(p) <==> p < count
                && piece_inside(start, end, p as int, piece_length, total_length),
        forall|i: int, j: int|
            0 <= i < j < inside(start, end, piece_length, count, total_length).len()
                ==> #[trigger] inside(start, end, piece_length, count, total_length)[i]
                < #[trigger] inside(start, end, piece_length, count, total_length)[j],
    decreases count,
{
    let s = inside(start, end, piece_length, count, total_length);
    if count > 0 {
        let n = (count - 1) as nat;
        let front = inside(start, end, piece_length, n, total_length);
        inside_lists_what_lies_inside(start, end, piece_length, n, total_length);
        assert forall|p: usize| #[trigger] s.contains(p) <==> p < count && piece_inside(
            start,
            end,
            p as int,
            piece_length,
            total_length,
        ) by {
            if s.contains(p) {
                let k = choose|k: int| 0 <= k < s.len() && s[k] == p;
                if k < front.len() {
                    assert(front[k] == p);
                    assert(front.contains(p));
                }
            }
            if p < count && piece_inside(start, end, p as int, piece_length, total_length) {
                if p < n {
                    assert(front.contains(p));
                    let k = choose|k: int| 0 <= k < front.len() && front[k] == p;
                    assert(s[k] == p);
                } else {
                    assert(s[s.len() - 1] == p);
                }
            }
        }
        assert forall|i: int, j: int| 0 <= i < j < s.len() implies #[trigger] s[i]
            < #[trigger] s[j] by {
            if j < front.len() {
                assert(front[i] < front[j]);
            } else if front.len() < s.len() {
                assert(front.contains(front[i]));
            }
        }
    }
}

/// At most as many pieces are chosen as were asked for, and only available
/// ones.
pub proof fn selection_is_bounded(available: Seq<usize>, count: nat)
    ensures
        selection(available, count).len() <= count,
        forall|i: int|
            0 <= i < selection(available, count).len() ==> available.contains(
                #[trigger] selection(available, count)[i],
            ),
{
    if count > 0 && available.len() > count {
        let all = spread_out(available, count);
        deduped_is_part(all);
        assert forall|i: int| 0 <= i < deduped(all).len() implies available.contains(
            #[trigger] deduped(all)[i],
        ) by {
            assert(all.contains(deduped(all)[i]));
            let k = choose|k: int| 0 <= k < all.len() && all[k] == deduped(all)[i];
            spread_in_range(k, available.len() as int, count as int);
        }
    } else if count > 0 && available.len() > 0 {
        assert forall|i: int| 0 <= i < available.len() implies available.contains(
            #[trigger] available[i],
        ) by {}
    }
}

proof fn deduped_is_part(s: Seq<usize>)
    ensures
        deduped(s).len() <= s.len(),
        s.len() > 0 ==> deduped(s).len() > 0 && deduped(s)[0] == s[0] && deduped(s).last()
            == s.last(),
        forall|i: int| 0 <= i < deduped(s).len() ==> s.contains(#[trigger] deduped(s)[i]),
    decreases s.len(),
{
    if s.len() > 0 {
        let front = deduped(s.drop_last());
        deduped_is_part(s.drop_last());
        assert forall|i: int| 0 <= i < deduped(s).len() implies s.contains(
            #[trigger] deduped(s)[i],
        ) by {
            if i < front.len() {
                assert(deduped(s)[i] == front[i]);
                assert(s.drop_last().contains(front[i]));
                let k = choose|k: int| 0 <= k < s.len() - 1 && s.drop_last()[k] == front[i];
                assert(s[k] == front[i]);
            } else {
                assert(s[s.len() - 1] == deduped(s)[i]);
            }
        }
    }
}

/// The first available piece is always among the chosen, and the last one
/// too, as soon as two are asked for.
pub proof fn selection_reaches_both_ends(available: Seq<usize>, count: nat)
    requires
        count > 0,
        available.len() > 0,
    ensures
        selection(available, count).len() > 0,
        selection(available, count)[0] == available[0],
        count > 1 ==> selection(available, count).last() == available.last(),
{
    if available.len() > count {
        let all = spread_out(available, count);
        deduped_is_part(all);
        spread_in_range(0, available.len() as int, count as int);
        spread_in_range(count - 1, available.len() as int, count as int);
    }
}

/// A piece is checked against a file exactly where every one of its bytes is a
/// byte of that file: those from its number times the piece length on, up to the
/// next piece or to the end of the torrent.
pub proof fn a_piece_lies_where_its_bytes_lie(
    start: int,
    end: int,
    index: int,
    piece_length: int,
    total_length: int,
)
    requires
        0 <= index,
        0 < piece_length,
        index * piece_length < total_length,
    ensures
        piece_inside(start, end, index, piece_length, total_length) <==> forall|b: int|
            index * piece_length <= b < index * piece_length + piece_length && b < total_length
                ==> start <= b && #[trigger] (b + 0) < end,
{
    let from = index * piece_length;
    let to = piece_end(index, piece_length, total_length);
    if forall|b: int|
        from <= b < from + piece_length && b < total_length ==> start <= b && #[trigger] (b + 0)
            < end {
        assert((from + 0) < end);
        assert(((to - 1) + 0) < end);
    }
}

/// The pieces tile the torrent: every byte of it is in the piece of its position
/// divided by the piece length, and in no other.
pub proof fn pieces_tile_the_torrent(
    b: int,
    index: int,
    piece_length: int,
    total_length: int,
)
    requires
        0 <= b < total_length,
        0 <= index,
        0 < piece_length,
    ensures
        piece_start(index, piece_length) <= b < piece_end(index, piece_length, total_length)
            <==> index == b / piece_length,
{
    vstd::arithmetic::div_mod::lemma_fundamental_div_mod(b, piece_length);
    let q = b / piece_length;
    let m = b % piece_length;
    assert(b == q * piece_length + m) by {
        vstd::arithmetic::mul::lemma_mul_is_commutative(q, piece_length);
    }
    if index == q {
    } else if index < q {
        assert(index * piece_length + piece_length <= q * piece_length) by (nonlinear_arith)
            requires
                index + 1 <= q,
                0 < piece_length,
        ;
    } else {
        assert(index * piece_length >= q * piece_length + piece_length) by (nonlinear_arith)
            requires
                index >= q + 1,
                0 < piece_length,
        ;
    }
}

/// Where more pieces are available than asked for, the chosen positions are
/// spread evenly: choice `k` of `count` stands at that share of the way from the
/// first to the last, and each lies behind the one before.
pub proof fn choices_are_spread_evenly(k: int, len: int, count: int)
    requires
        1 < count < len,
        0 <= k < count,
    ensures
        (count - 1) * spread(k, len, count) <= k * (len - 1) < (count - 1) * (spread(k, len, count)
            + 1),
        k + 1 < count ==> spread(k, len, count) < spread(k + 1, len, count),
{
    let gaps = count - 1;
    let a = k * (len - 1);
    let b = (k + 1) * (len - 1);
    vstd::arithmetic::div_mod::lemma_fundamental_div_mod(a, gaps);
    vstd::arithmetic::div_mod::lemma_fundamental_div_mod(b, gaps);
    let (p, q) = (a / gaps, b / gaps);
    assert(b == a + (len - 1)) by (nonlinear_arith)
        requires
            a == k * (len - 1),
            b == (k + 1) * (len - 1),
    ;
    assert(gaps * (p + 1) == gaps * p + gaps) by (nonlinear_arith);
    if q <= p {
        assert(gaps * q <= gaps * p) by (nonlinear_arith)
            requires
                q <= p,
                gaps > 0,
        ;
    }
}

/// Every available piece is chosen where there are no more than asked for; of
/// more, in increasing order, exactly as many are chosen as asked for, each at its
/// place of the spread.
pub proof fn as_many_are_chosen_as_asked_for(available: Seq<usize>, count: nat)
    requires
        forall|i: int, j: int|
            0 <= i < j < available.len() ==> #[trigger] available[i] < #[trigger] available[j],
    ensures
        available.len() <= count ==> selection(available, count) == available,
        available.len() > count && count > 1 ==> {
            &&& selection(available, count).len() == count
            &&& forall|k: int|
                0 <= k < count ==> #[trigger] selection(available, count)[k] == available[k * (
                available.len() - 1) / (count - 1)]
        },
        available.len() > count && count == 1 ==> selection(available, count) == seq![
            available[0],
        ],
{
    let len = available.len() as int;
    if available.len() > count && count > 1 {
        let all = spread_out(available, count);
        assert forall|k: int| 0 <= k < all.len() - 1 implies #[trigger] all[k] != all[k + 1] by {
            choices_are_spread_evenly(k, len, count as int);
            spread_in_range(k, len, count as int);
            spread_in_range(k + 1, len, count as int);
        }
        nothing_to_dedupe(all);
    } else if available.len() > count && count == 1 {
        let all = spread_out(available, count);
        spread_in_range(0, len, 1);
        nothing_to_dedupe(all);
        assert(all =~= seq![available[0]]);
    } else if available.len() == 0 {
        assert(selection(available, count) =~= available);
    }
}

proof fn nothing_to_dedupe(s: Seq<usize>)
    requires
        forall|k: int| 0 <= k < s.len() - 1 ==> #[trigger] s[k] != s[k + 1],
    ensures
        deduped(s) == s,
    decreases s.len(),
{
    if s.len() > 0 {
        let front = s.drop_last();
        assert forall|k: int| 0 <= k < front.len() - 1 implies #[trigger] front[k] != front[k
            + 1] by {
            assert(s[k] != s[k + 1]);
        }
        nothing_to_dedupe(front);
        if s.len() > 1 {
            assert(s[s.len() - 2] != s[s.len() - 2 + 1]);
        }
        assert(front.push(s.last()) =~= s);
    }
}

} // verus!
