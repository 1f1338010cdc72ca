//! A stable sort by an integer key.

use vstd::prelude::*;

verus! {

/// Each key no larger than the next.
pub open spec fn ordered<T>(s: Seq<(i128, T)>) -> bool {
    forall|i: int, j: int| 0 <= i <= j < s.len() ==> (#[trigger] s[i]).0 <= (#[trigger] s[j]).0
}

/// The items with that key, in the order in which they stand.
pub open spec fn with_key<T>(s: Seq<(i128, T)>, key: i128) -> Seq<(i128, T)> {
    s.filter(|item: (i128, T)| item.0 == key)
}

/// `sorted` holds the items of `s` in the order of their keys; items with the
/// same key stay in the order in which they stood.
pub open spec fn sorts<T>(s: Seq<(i128, T)>, sorted: Seq<(i128, T)>) -> bool {
    &&& ordered(sorted)
    &&& forall|key: i128| #[trigger] with_key(sorted, key) == with_key(s, key)
    &&& sorted.len() == s.len()
}

/// Sort by key, keeping the order of items with the same key.
pub fn sort_by_key<T>(items: Vec<(i128, T)>) -> (r: Vec<(i128, T)>)
    ensures
        sorts(items@, r@),
{
    let ghost all = items@;
    let mut rest = items;
    let mut out: Vec<(i128, T)> = Vec::new();
    let ghost mut done: int = 0;
    assert(all.take(0) =~= Seq::<(i128, T)>::empty());
    assert(all.skip(0) =~= all);
    while rest.len() > 0
        invariant
            0 <= done <= all.len(),
            rest@ == all.skip(done),
            sorts(all.take(done), out@),
        decreases rest@.len(),
    {
        let item = rest.remove(0);
        let key: i128 = item.0;
        let mut at: usize = out.len();
        while at > 0 && out[at - 1].0 > key
            invariant
                at <= out@.len(),
                ordered(out@),
                forall|k: int| at <= k < out@.len() ==> (#[trigger] out@[k]).0 > key,
            decreases at,
        {
            at -= 1;
        }
        let ghost before = out@;
        proof {
            assert forall|k: int| 0 <= k < at implies (#[trigger] before[k]).0 <= key by {
                assert(before[at - 1].0 <= key);
            }
        }
        out.insert(at, item);
        proof {
            assert(item == all[done]);
            assert(all.take(done + 1) =~= all.take(done).push(item));
            assert(rest@ =~= all.skip(done + 1));
            inserting_keeps_order(all.take(done), before, at as int, item);
            assert(out@ =~= before.insert(at as int, item));
            done = done + 1;
        }
    }
    assert(all.take(done) =~= all);
    out
}

proof fn inserting_keeps_order<T>(s: Seq<(i128, T)>, sorted: Seq<(i128, T)>, at: int, item: (i128, T))
    requires
        sorts(s, sorted),
        0 <= at <= sorted.len(),
        forall|k: int| 0 <= k < at ==> (#[trigger] sorted[k]).0 <= item.0,
        forall|k: int| at <= k < sorted.len() ==> (#[trigger] sorted[k]).0 > item.0,
    ensures
        sorts(s.push(item), sorted.insert(at, item)),
{
    let now = sorted.insert(at, item);
    let front = sorted.take(at);
    let back = sorted.skip(at);
    assert(now =~= front + seq![item] + back);
    assert(sorted =~= front + back);
    assert forall|key: i128| #[trigger] with_key(now, key) == with_key(s.push(item), key) by {
        let keep = |x: (i128, T)| x.0 == key;
        Seq::filter_distributes_over_add(front + seq![item], back, keep);
        Seq::filter_distributes_over_add(front, seq![item], keep);
        Seq::filter_distributes_over_add(front, back, keep);
        Seq::filter_distributes_over_add(s, seq![item], keep);
        assert(s.push(item) =~= s + seq![item]);
        assert(with_key(sorted, key) == with_key(s, key));
        if key == item.0 {
            nothing_kept(back, keep);
            assert(back.filter(keep) =~= Seq::<(i128, T)>::empty());
            assert(with_key(now, key) =~= with_key(s.push(item), key));
        } else {
            nothing_kept(seq![item], keep);
            assert(with_key(now, key) =~= with_key(s.push(item), key));
        }
    }
    assert(ordered(now)) by {
        assert forall|i: int, j: int| 0 <= i <= j < now.len() implies (#[trigger] now[i]).0 <= (
        #[trigger] now[j]).0 by {
            if i < at {
                assert(now[i] == sorted[i]);
            }
            if i > at {
                assert(now[i] == sorted[i - 1]);
            }
            if j < at {
                assert(now[j] == sorted[j]);
            }
            if j > at {
                assert(now[j] == sorted[j - 1]);
            }
        }
    }
}

proof fn nothing_kept<T>(s: Seq<(i128, T)>, keep: spec_fn((i128, T)) -> bool)
    requires
        forall|i: int| 0 <= i < s.len() ==> !keep(#[trigger] s[i]),
    ensures
        s.filter(keep).len() == 0,
    decreases s.len(),
{
    reveal(Seq::filter);
    if s.len() > 0 {
        assert(!keep(s[s.len() - 1]));
        assert forall|i: int| 0 <= i < s.drop_last().len() implies !keep(
            #[trigger] s.drop_last()[i],
        ) by {
            assert(s.drop_last()[i] == s[i]);
        }
        nothing_kept(s.drop_last(), keep);
    }
}

/// What is kept of a list is what is wanted of it, and all of that.
pub proof fn what_is_kept_of_a_list<A>(s: Seq<A>, wanted: spec_fn(A) -> bool)
    ensures
        forall|i: int|
            0 <= i < s.filter(wanted).len() ==> wanted(#[trigger] s.filter(wanted)[i])
                && s.contains(s.filter(wanted)[i]),
        forall|i: int|
            0 <= i < s.len() && wanted(#[trigger] s[i]) ==> s.filter(wanted).contains(s[i]),
    decreases s.len(),
{
    reveal(Seq::filter);
    if s.len() > 0 {
        let e = s.len() - 1;
        let front = s.drop_last();
        let (kept, all) = (front.filter(wanted), s.filter(wanted));
        what_is_kept_of_a_list(front, wanted);
        assert forall|i: int| 0 <= i < all.len() implies wanted(#[trigger] all[i]) && s.contains(
            all[i],
        ) by {
            if i < kept.len() {
                assert(all[i] == kept[i]);
                let k = choose|k: int| 0 <= k < front.len() && front[k] == kept[i];
                assert(s[k] == all[i]);
            } else {
                assert(s[e] == all[i]);
            }
        }
        assert forall|i: int| 0 <= i < s.len() && wanted(#[trigger] s[i]) implies all.contains(
            s[i],
        ) by {
            if i < e {
                assert(front[i] == s[i]);
                let k = choose|k: int| 0 <= k < kept.len() && kept[k] == s[i];
                assert(all[k] == s[i]);
            } else {
                assert(all[all.len() - 1] == s[i]);
            }
        }
    }
}

/// The last of a list is kept where it is wanted, behind what is kept of the
/// others.
pub proof fn whether_the_last_is_kept<A>(s: Seq<A>, wanted: spec_fn(A) -> bool)
    requires
        s.len() > 0,
    ensures
        s.filter(wanted) == if wanted(s.last()) {
            s.drop_last().filter(wanted).push(s.last())
        } else {
            s.drop_last().filter(wanted)
        },
{
    reveal(Seq::filter);
}

/// Nothing is kept of an empty list.
pub proof fn nothing_is_kept_of_nothing<A>(s: Seq<A>, wanted: spec_fn(A) -> bool)
    requires
        s.len() == 0,
    ensures
        s.filter(wanted) == s,
{
    reveal(Seq::filter);
}

proof fn what_has_that_key<T>(s: Seq<(i128, T)>, key: i128)
    ensures
        forall|i: int|
            0 <= i < with_key(s, key).len() ==> s.contains(#[trigger] with_key(s, key)[i]),
        forall|i: int|
            0 <= i < s.len() && (#[trigger] s[i]).0 == key ==> with_key(s, key).contains(s[i]),
    decreases s.len(),
{
    reveal(Seq::filter);
    if s.len() > 0 {
        let e = s.len() - 1;
        let front = s.drop_last();
        let (kept, all) = (with_key(front, key), with_key(s, key));
        what_has_that_key(front, key);
        assert forall|i: int| 0 <= i < all.len() implies s.contains(#[trigger] all[i]) by {
            if i < kept.len() {
                assert(all[i] == kept[i]);
                let k = choose|k: int| 0 <= k < front.len() && front[k] == kept[i];
                assert(s[k] == all[i]);
            } else {
                assert(s[e] == all[i]);
            }
        }
        assert forall|i: int| 0 <= i < s.len() && (#[trigger] s[i]).0 == key implies all.contains(
            s[i],
        ) by {
            if i < e {
                assert(front[i] == s[i]);
                let k = choose|k: int| 0 <= k < kept.len() && kept[k] == s[i];
                assert(all[k] == s[i]);
            } else {
                assert(all[all.len() - 1] == s[i]);
            }
        }
    }
}

/// Sorting brings in nothing that was not there.
pub proof fn sorting_brings_nothing_in<T>(s: Seq<(i128, T)>, sorted: Seq<(i128, T)>, i: int)
    requires
        sorts(s, sorted),
        0 <= i < sorted.len(),
    ensures
        s.contains(sorted[i]),
{
    let key = sorted[i].0;
    what_has_that_key(sorted, key);
    what_has_that_key(s, key);
    assert(with_key(sorted, key) == with_key(s, key));
    assert(with_key(sorted, key).contains(sorted[i]));
    let k = choose|k: int| 0 <= k < with_key(s, key).len() && with_key(s, key)[k] == sorted[i];
    assert(s.contains(with_key(s, key)[k]));
}

proof fn none_is_kept<A>(before: Seq<A>, keep: spec_fn(A) -> bool)
    requires
        forall|i: int| 0 <= i < before.len() ==> !keep(#[trigger] before[i]),
    ensures
        before.filter(keep) == Seq::<A>::empty(),
    decreases before.len(),
{
    if before.len() > 0 {
        let front = before.drop_last();
        whether_the_last_is_kept(before, keep);
        assert(!keep(before[before.len() - 1]));
        assert forall|i: int| 0 <= i < front.len() implies !keep(#[trigger] front[i]) by {
            assert(front[i] == before[i]);
        }
        none_is_kept(front, keep);
    } else {
        nothing_is_kept_of_nothing(before, keep);
        assert(before =~= Seq::<A>::empty());
    }
}

/// Of a list that ends in what is wanted, with nothing wanted before it, just that
/// end is kept.
pub proof fn all_are_kept<A>(all: Seq<A>, n: int, keep: spec_fn(A) -> bool)
    requires
        0 <= n <= all.len(),
        forall|i: int| 0 <= i < n ==> !keep(#[trigger] all[i]),
        forall|i: int| n <= i < all.len() ==> keep(#[trigger] all[i]),
    ensures
        all.filter(keep) == all.skip(n),
    decreases all.len(),
{
    if n < all.len() {
        let front = all.drop_last();
        let last = all.last();
        assert(keep(all[all.len() - 1]));
        whether_the_last_is_kept(all, keep);
        assert forall|i: int| 0 <= i < n implies !keep(#[trigger] front[i]) by {
            assert(front[i] == all[i]);
        }
        assert forall|i: int| n <= i < front.len() implies keep(#[trigger] front[i]) by {
            assert(front[i] == all[i]);
        }
        all_are_kept(front, n, keep);
        assert(front.skip(n).push(last) =~= all.skip(n));
    } else {
        none_is_kept(all, keep);
        assert(all.skip(n) =~= Seq::<A>::empty());
    }
}

} // verus!
