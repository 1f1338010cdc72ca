//! A small table from names to values, in the order in which the names came.

use vstd::prelude::*;

use crate::text::same;
use crate::torrent::InfoHash;
use crate::tracker::TrackerId;

verus! {

/// What a value can be listed under.
pub trait Name: View + Sized {
    /// Whether two names are the same name.
    fn is_name(&self, other: &Self) -> (r: bool)
        ensures
            r == (self@ == other@),
    ;
}

impl Name for String {
    fn is_name(&self, other: &String) -> (r: bool) {
        same(self.as_str(), other.as_str())
    }
}

impl Name for TrackerId {
    fn is_name(&self, other: &TrackerId) -> (r: bool) {
        self.is(other)
    }
}

impl Name for InfoHash {
    fn is_name(&self, other: &InfoHash) -> (r: bool) {
        self.is(other)
    }
}

/// Two texts that name something together.
#[derive(Debug)]
pub struct Pair {
    pub first: String,
    pub second: String,
}

impl View for Pair {
    type V = (Seq<char>, Seq<char>);

    open spec fn view(&self) -> (Seq<char>, Seq<char>) {
        (self.first@, self.second@)
    }
}

impl Name for Pair {
    fn is_name(&self, other: &Pair) -> (r: bool) {
        same(self.first.as_str(), other.first.as_str()) && same(
            self.second.as_str(),
            other.second.as_str(),
        )
    }
}

/// No name is listed twice.
pub open spec fn names_differ<K: Name, V>(entries: Seq<(K, V)>) -> bool {
    forall|i: int, j: int|
        0 <= i < entries.len() && 0 <= j < entries.len() && i != j ==> (#[trigger] entries[i]).0@
            != (#[trigger] entries[j]).0@
}

/// The name is listed.
pub open spec fn listed<K: Name, V>(entries: Seq<(K, V)>, name: <K as View>::V) -> bool {
    exists|i: int| 0 <= i < entries.len() && (#[trigger] entries[i]).0@ == name
}

/// What is listed under the names.
pub open spec fn listing<K: Name, V>(entries: Seq<(K, V)>) -> Map<<K as View>::V, V> {
    Map::new(
        |name: <K as View>::V| listed(entries, name),
        |name: <K as View>::V|
            entries[choose|i: int| 0 <= i < entries.len() && (#[trigger] entries[i]).0@ == name].1,
    )
}

/// A table from names to values.
#[derive(Debug)]
pub struct Table<K: Name, V> {
    entries: Vec<(K, V)>,
}

impl<K: Name, V> View for Table<K, V> {
    type V = Map<<K as View>::V, V>;

    open spec fn view(&self) -> Map<<K as View>::V, V> {
        listing(self.all())
    }
}

impl<K: Name, V> Table<K, V> {
    #[verifier::type_invariant]
    spec fn well_formed(self) -> bool {
        names_differ(self.entries@)
    }

    /// The entries, in the order in which the names came.
    pub closed spec fn all(self) -> Seq<(K, V)> {
        self.entries@
    }

    pub fn new() -> (r: Table<K, V>)
        ensures
            r@ == Map::<<K as View>::V, V>::empty(),
            r.all().len() == 0,
    {
        let r = Table { entries: Vec::new() };
        assert(r@ =~= Map::<<K as View>::V, V>::empty());
        r
    }

    pub fn len(&self) -> (r: usize)
        ensures
            r == self.all().len(),
            names_differ(self.all()),
    {
        proof {
            use_type_invariant(self);
        }
        self.entries.len()
    }

    /// The name and the value of an entry.
    pub fn entry(&self, i: usize) -> (r: (&K, &V))
        requires
            i < self.all().len(),
        ensures
            *r.0 == self.all()[i as int].0,
            *r.1 == self.all()[i as int].1,
    {
        (&self.entries[i].0, &self.entries[i].1)
    }

    fn position(&self, name: &K) -> (r: Option<usize>)
        ensures
            match r {
                Some(i) => i < self.all().len() && self.all()[i as int].0@ == name@,
                None => !listed(self.all(), name@),
            },
    {
        let mut i: usize = 0;
        while i < self.entries.len()
            invariant
                i <= self.entries@.len(),
                forall|k: int| 0 <= k < i ==> (#[trigger] self.entries@[k]).0@ != name@,
            decreases self.entries@.len() - i,
        {
            if self.entries[i].0.is_name(name) {
                return Some(i);
            }
            i += 1;
        }
        None
    }

    /// The value under a name.
    pub fn get(&self, name: &K) -> (r: Option<&V>)
        ensures
            match r {
                Some(value) => self@.dom().contains(name@) && self@[name@] == *value,
                None => !self@.dom().contains(name@),
            },
    {
        match self.position(name) {
            Some(i) => {
                proof {
                    use_type_invariant(self);
                    listing_at(self.entries@, i as int);
                }
                Some(&self.entries[i].1)
            },
            None => None,
        }
    }

    /// Put a value under a name, in place of the one that was there.
    pub fn put(&mut self, name: K, value: V)
        ensures
            final(self)@ == old(self)@.insert(name@, value),
    {
        proof {
            use_type_invariant(&*self);
        }
        let ghost before = self.entries@;
        let place = self.position(&name);
        let mut all: Vec<(K, V)> = Vec::new();
        std::mem::swap(&mut self.entries, &mut all);
        assert(all@ == before);
        match place {
            Some(i) => {
                all.set(i, (name, value));
                proof {
                    assert(all@[i as int].0@ == name@);
                    listing_replaced(before, all@, i as int);
                }
            },
            None => {
                all.push((name, value));
                proof {
                    listing_extended(before, all@);
                }
            },
        }
        self.entries = all;
    }

    /// Take a name off the table.
    pub fn remove(&mut self, name: &K)
        ensures
            final(self)@ == old(self)@.remove(name@),
    {
        proof {
            use_type_invariant(&*self);
        }
        let ghost before = self.entries@;
        let place = self.position(name);
        let mut all: Vec<(K, V)> = Vec::new();
        std::mem::swap(&mut self.entries, &mut all);
        assert(all@ == before);
        match place {
            Some(i) => {
                let _gone = all.remove(i);
                proof {
                    listing_shortened(before, i as int);
                    assert(all@ =~= before.remove(i as int));
                }
            },
            None => {
                assert(listing(before).remove(name@) =~= listing(before));
            },
        }
        self.entries = all;
    }
}

/// What an entry lists is what stands under its name.
pub proof fn listing_at<K: Name, V>(entries: Seq<(K, V)>, i: int)
    requires
        names_differ(entries),
        0 <= i < entries.len(),
    ensures
        listing(entries).dom().contains(entries[i].0@),
        listing(entries)[entries[i].0@] == entries[i].1,
{
    let name = entries[i].0@;
    let k = choose|k: int| 0 <= k < entries.len() && (#[trigger] entries[k]).0@ == name;
    assert(entries[k].0@ == name);
    if k != i {
        assert(entries[k].0@ != entries[i].0@);
    }
}

proof fn listing_replaced<K: Name, V>(before: Seq<(K, V)>, after: Seq<(K, V)>, i: int)
    requires
        names_differ(before),
        0 <= i < before.len(),
        after == before.update(i, after[i]),
        after[i].0@ == before[i].0@,
    ensures
        names_differ(after),
        listing(after) == listing(before).insert(after[i].0@, after[i].1),
{
    let name = after[i].0@;
    assert forall|a: int, b: int| 0 <= a < after.len() && 0 <= b < after.len() && a != b implies (
    #[trigger] after[a]).0@ != (#[trigger] after[b]).0@ by {
        assert(before[a].0@ != before[b].0@);
    }
    assert forall|n: <K as View>::V| listed(after, n) <==> listed(before, n) by {
        if listed(after, n) {
            let k = choose|k: int| 0 <= k < after.len() && (#[trigger] after[k]).0@ == n;
            assert(before[k].0@ == n);
        }
        if listed(before, n) {
            let k = choose|k: int| 0 <= k < before.len() && (#[trigger] before[k]).0@ == n;
            assert(after[k].0@ == n);
        }
    }
    listing_at(before, i);
    assert forall|n: <K as View>::V| listed(after, n) implies listing(after)[n] == #[trigger] listing(
        before,
    ).insert(name, after[i].1)[n] by {
        let k = choose|k: int| 0 <= k < after.len() && (#[trigger] after[k]).0@ == n;
        listing_at(after, k);
        if k != i {
            listing_at(before, k);
            assert(after[k].0@ != after[i].0@);
        }
    }
    assert(listing(after) =~= listing(before).insert(name, after[i].1));
}

proof fn listing_extended<K: Name, V>(before: Seq<(K, V)>, after: Seq<(K, V)>)
    requires
        names_differ(before),
        after.len() == before.len() + 1,
        after == before.push(after.last()),
        !listed(before, after.last().0@),
    ensures
        names_differ(after),
        listing(after) == listing(before).insert(after.last().0@, after.last().1),
{
    let last = before.len() as int;
    let name = after[last].0@;
    assert forall|a: int, b: int| 0 <= a < after.len() && 0 <= b < after.len() && a != b implies (
    #[trigger] after[a]).0@ != (#[trigger] after[b]).0@ by {
        if a < last && b < last {
            assert(before[a].0@ != before[b].0@);
        } else if a < last {
            assert(before[a] == after[a]);
        } else {
            assert(before[b] == after[b]);
        }
    }
    assert forall|n: <K as View>::V| listed(after, n) <==> listed(before, n) || n == name by {
        if listed(after, n) {
            let k = choose|k: int| 0 <= k < after.len() && (#[trigger] after[k]).0@ == n;
            if k < last {
                assert(before[k].0@ == n);
            }
        }
        if listed(before, n) {
            let k = choose|k: int| 0 <= k < before.len() && (#[trigger] before[k]).0@ == n;
            assert(after[k].0@ == n);
        }
        if n == name {
            assert(after[last].0@ == n);
        }
    }
    assert forall|n: <K as View>::V| listed(after, n) implies listing(after)[n] == #[trigger] listing(
        before,
    ).insert(name, after[last].1)[n] by {
        let k = choose|k: int| 0 <= k < after.len() && (#[trigger] after[k]).0@ == n;
        listing_at(after, k);
        if k < last {
            assert(before[k] == after[k]);
            listing_at(before, k);
            assert(after[k].0@ != after[last].0@);
        }
    }
    assert(listing(after) =~= listing(before).insert(name, after[last].1));
}

proof fn listing_shortened<K: Name, V>(before: Seq<(K, V)>, i: int)
    requires
        names_differ(before),
        0 <= i < before.len(),
    ensures
        names_differ(before.remove(i)),
        listing(before.remove(i)) == listing(before).remove(before[i].0@),
{
    let after = before.remove(i);
    let name = before[i].0@;
    assert forall|a: int, b: int| 0 <= a < after.len() && 0 <= b < after.len() && a != b implies (
    #[trigger] after[a]).0@ != (#[trigger] after[b]).0@ by {
        let x = if a < i {
            a
        } else {
            a + 1
        };
        let y = if b < i {
            b
        } else {
            b + 1
        };
        assert(after[a] == before[x] && after[b] == before[y]);
        assert(before[x].0@ != before[y].0@);
    }
    assert forall|n: <K as View>::V| listed(after, n) <==> listed(before, n) && n != name by {
        if listed(after, n) {
            let k = choose|k: int| 0 <= k < after.len() && (#[trigger] after[k]).0@ == n;
            let x = if k < i {
                k
            } else {
                k + 1
            };
            assert(after[k] == before[x]);
            assert(before[x].0@ != before[i].0@);
        }
        if listed(before, n) && n != name {
            let k = choose|k: int| 0 <= k < before.len() && (#[trigger] before[k]).0@ == n;
            if k < i {
                assert(after[k].0@ == n);
            } else {
                assert(after[k - 1].0@ == n);
            }
        }
    }
    assert forall|n: <K as View>::V| listed(after, n) implies listing(after)[n]
        == #[trigger] listing(before).remove(name)[n] by {
        let k = choose|k: int| 0 <= k < after.len() && (#[trigger] after[k]).0@ == n;
        listing_at(after, k);
        let x = if k < i {
            k
        } else {
            k + 1
        };
        assert(after[k] == before[x]);
        listing_at(before, x);
    }
    assert(listing(after) =~= listing(before).remove(name));
}

/// There are as many names as entries.
pub proof fn listing_size<K: Name, V>(entries: Seq<(K, V)>)
    requires
        names_differ(entries),
    ensures
        listing(entries).dom().finite(),
        listing(entries).dom().len() == entries.len(),
    decreases entries.len(),
{
    if entries.len() == 0 {
        assert(listing(entries).dom() =~= Set::empty());
    } else {
        let rest = entries.drop_last();
        assert forall|a: int, b: int| 0 <= a < rest.len() && 0 <= b < rest.len() && a != b implies (
        #[trigger] rest[a]).0@ != (#[trigger] rest[b]).0@ by {
            assert(entries[a].0@ != entries[b].0@);
        }
        listing_size(rest);
        assert(!listed(rest, entries.last().0@)) by {
            if listed(rest, entries.last().0@) {
                let k = choose|k: int|
                    0 <= k < rest.len() && (#[trigger] rest[k]).0@ == entries.last().0@;
                assert(entries[k].0@ != entries[entries.len() - 1].0@);
            }
        }
        assert(entries =~= rest.push(entries.last()));
        listing_extended(rest, entries);
        assert(listing(entries).dom() =~= listing(rest).dom().insert(entries.last().0@));
    }
}

} // verus!
