//! The bencode grammar: what each value looks like as bytes.
//!
//! An encoding never runs into what follows it, so a sequence of bytes begins
//! with the encoding of at most one value. That is what makes "the value these
//! bytes start with" well defined.

use vstd::prelude::*;

verus! {

/// How deep values may nest. Real torrent structures nest a handful of levels
/// (dict, info, files, file dict, path list); this covers them with room to
/// spare, while bounding recursion so a hostile file cannot exhaust the stack.
pub const MAX_DEPTH: usize = 32;

/// A bencoded value. The entries of a dictionary stand in the order in which
/// they were written; a key may repeat.
pub enum Ben {
    Int(int),
    Bytes(Seq<u8>),
    List(Seq<Ben>),
    /// The keys, and the value of each.
    Dict(Seq<Seq<u8>>, Seq<Ben>),
}

/// Characters that are single bytes, as bytes.
pub open spec fn ascii(s: Seq<char>) -> Seq<u8> {
    s.map_values(|c: char| c as u8)
}

/// A byte string: its length in decimal, a colon, the bytes.
pub open spec fn encode_bytes(b: Seq<u8>) -> Seq<u8> {
    ascii(crate::text::decimal(b.len())) + seq![58u8] + b
}

/// How a value is written.
pub open spec fn encode(v: Ben) -> Seq<u8>
    decreases v,
{
    match v {
        Ben::Int(n) => seq![105u8] + ascii(crate::text::signed_decimal(n)) + seq![101u8],
        Ben::Bytes(b) => encode_bytes(b),
        Ben::List(items) => seq![108u8] + encode_all(items) + seq![101u8],
        Ben::Dict(keys, values) => seq![100u8] + encode_pairs(keys, values) + seq![101u8],
    }
}

/// The items of a list, one after the other.
pub open spec fn encode_all(items: Seq<Ben>) -> Seq<u8>
    decreases items,
{
    if items.len() == 0 {
        seq![]
    } else {
        encode(items[0]) + encode_all(items.subrange(1, items.len() as int))
    }
}

/// The entries of a dictionary, each a key and its value.
pub open spec fn encode_pairs(keys: Seq<Seq<u8>>, values: Seq<Ben>) -> Seq<u8>
    decreases values,
{
    if values.len() == 0 {
        seq![]
    } else {
        encode_bytes(keys[0]) + encode(values[0]) + encode_pairs(
            keys.subrange(1, keys.len() as int),
            values.subrange(1, values.len() as int),
        )
    }
}

/// The value stays within what is read: integers of 64 bits, no nesting
/// deeper than [`MAX_DEPTH`] when it stands `depth` levels down, and as many
/// keys as values.
pub open spec fn readable(v: Ben, depth: int) -> bool
    decreases v,
{
    &&& depth <= MAX_DEPTH
    &&& match v {
        Ben::Int(n) => i64::MIN <= n <= i64::MAX,
        Ben::Bytes(b) => true,
        Ben::List(items) => forall|i: int|
            0 <= i < items.len() ==> readable(#[trigger] items[i], depth + 1),
        Ben::Dict(keys, values) => keys.len() == values.len() && forall|i: int|
            0 <= i < values.len() ==> readable(#[trigger] values[i], depth + 1),
    }
}

/// `s` begins with `front`.
pub open spec fn starts(s: Seq<u8>, front: Seq<u8>) -> bool {
    front.len() <= s.len() && s.take(front.len() as int) == front
}

// ---------------------------------------------------------------------------
// Beginnings
// ---------------------------------------------------------------------------

pub proof fn starts_split(s: Seq<u8>, a: Seq<u8>, b: Seq<u8>)
    ensures
        starts(s, a + b) <==> starts(s, a) && starts(s.skip(a.len() as int), b),
{
    if starts(s, a + b) {
        assert(s.take(a.len() as int) =~= a) by {
            assert forall|i: int| 0 <= i < a.len() implies s[i] == a[i] by {
                assert(s.take((a + b).len() as int)[i] == (a + b)[i]);
            }
        }
        assert(s.skip(a.len() as int).take(b.len() as int) =~= b) by {
            assert forall|i: int| 0 <= i < b.len() implies s[a.len() + i] == b[i] by {
                assert(s.take((a + b).len() as int)[a.len() + i] == (a + b)[a.len() + i]);
            }
        }
    }
    if starts(s, a) && starts(s.skip(a.len() as int), b) {
        assert(s.take((a + b).len() as int) =~= a + b) by {
            assert forall|i: int| 0 <= i < (a + b).len() implies s[i] == (a + b)[i] by {
                if i < a.len() {
                    assert(s.take(a.len() as int)[i] == a[i]);
                } else {
                    assert(s.skip(a.len() as int).take(b.len() as int)[i - a.len()] == b[i
                        - a.len()]);
                }
            }
        }
    }
}

pub proof fn starts_one(s: Seq<u8>, b: u8)
    ensures
        starts(s, seq![b]) <==> s.len() > 0 && s[0] == b,
{
    if s.len() > 0 && s[0] == b {
        assert(s.take(1) =~= seq![b]);
    }
    if starts(s, seq![b]) {
        assert(s.take(1)[0] == b);
    }
}

/// Two beginnings of the same length are the same.
pub proof fn starts_same_len(s: Seq<u8>, a: Seq<u8>, b: Seq<u8>)
    requires
        starts(s, a),
        starts(s, b),
        a.len() == b.len(),
    ensures
        a == b,
{
}

// ---------------------------------------------------------------------------
// Numbers
// ---------------------------------------------------------------------------

/// A byte that can stand in a number: a digit or a minus sign.
pub open spec fn number_byte(b: u8) -> bool {
    b == 45 || 48 <= b <= 57
}

/// Only digits and minus signs.
pub open spec fn number_bytes(s: Seq<u8>) -> bool {
    forall|i: int| 0 <= i < s.len() ==> number_byte(#[trigger] s[i])
}

/// What stands before the first byte that is no number byte is determined.
pub proof fn number_end_unique(s: Seq<u8>, a: Seq<u8>, b: Seq<u8>, t: u8)
    requires
        number_bytes(a),
        number_bytes(b),
        !number_byte(t),
        starts(s, a + seq![t]),
        starts(s, b + seq![t]),
    ensures
        a == b,
{
    starts_split(s, a, seq![t]);
    starts_split(s, b, seq![t]);
    starts_one(s.skip(a.len() as int), t);
    starts_one(s.skip(b.len() as int), t);
    if a.len() < b.len() {
        assert(s[a.len() as int] == t);
        assert(s.take(b.len() as int)[a.len() as int] == b[a.len() as int]);
        assert(number_byte(b[a.len() as int]));
    } else if b.len() < a.len() {
        assert(s[b.len() as int] == t);
        assert(s.take(a.len() as int)[b.len() as int] == a[b.len() as int]);
        assert(number_byte(a[b.len() as int]));
    } else {
        starts_same_len(s, a, b);
    }
}

pub proof fn decimal_bytes(n: nat)
    ensures
        ascii(crate::text::decimal(n)).len() == crate::text::decimal(n).len() >= 1,
        forall|i: int|
            0 <= i < ascii(crate::text::decimal(n)).len() ==> 48 <= #[trigger] ascii(
                crate::text::decimal(n),
            )[i] <= 57,
        number_bytes(ascii(crate::text::decimal(n))),
{
    crate::text::decimal_is_digits(n);
    assert forall|i: int| 0 <= i < ascii(crate::text::decimal(n)).len() implies 48
        <= #[trigger] ascii(crate::text::decimal(n))[i] <= 57 by {
        assert('0' <= crate::text::decimal(n)[i] <= '9');
    }
}

pub proof fn signed_decimal_bytes(n: int)
    ensures
        number_bytes(ascii(crate::text::signed_decimal(n))),
        ascii(crate::text::signed_decimal(n)).len() >= 1,
        n < 0 ==> ascii(crate::text::signed_decimal(n)) == seq![45u8] + ascii(
            crate::text::decimal((-n) as nat),
        ),
        n >= 0 ==> ascii(crate::text::signed_decimal(n)) == ascii(crate::text::decimal(n as nat)),
{
    if n < 0 {
        decimal_bytes((-n) as nat);
        assert(ascii(crate::text::signed_decimal(n)) =~= seq![45u8] + ascii(
            crate::text::decimal((-n) as nat),
        ));
    } else {
        decimal_bytes(n as nat);
    }
}

/// Digits that are the same bytes are the same number.
pub proof fn decimal_bytes_injective(a: nat, b: nat)
    requires
        ascii(crate::text::decimal(a)) == ascii(crate::text::decimal(b)),
    ensures
        a == b,
{
    let (s, t) = (crate::text::decimal(a), crate::text::decimal(b));
    crate::text::decimal_is_digits(a);
    crate::text::decimal_is_digits(b);
    assert(s.len() == ascii(s).len() && t.len() == ascii(t).len());
    assert forall|i: int| 0 <= i < s.len() implies s[i] == t[i] by {
        assert(ascii(s)[i] == ascii(t)[i]);
        assert('0' <= s[i] <= '9' && '0' <= t[i] <= '9');
    }
    assert(s =~= t);
    crate::text::decimal_injective(a, b);
}

pub proof fn signed_decimal_bytes_injective(a: int, b: int)
    requires
        ascii(crate::text::signed_decimal(a)) == ascii(crate::text::signed_decimal(b)),
    ensures
        a == b,
{
    signed_decimal_bytes(a);
    signed_decimal_bytes(b);
    let (s, t) = (
        ascii(crate::text::signed_decimal(a)),
        ascii(crate::text::signed_decimal(b)),
    );
    if a < 0 && b < 0 {
        let (x, y) = (
            ascii(crate::text::decimal((-a) as nat)),
            ascii(crate::text::decimal((-b) as nat)),
        );
        assert(x =~= s.skip(1));
        assert(y =~= t.skip(1));
        decimal_bytes_injective((-a) as nat, (-b) as nat);
    } else if a >= 0 && b >= 0 {
        decimal_bytes_injective(a as nat, b as nat);
    } else if a < 0 {
        decimal_bytes(b as nat);
        assert(s[0] == 45u8);
        assert(t[0] >= 48);
    } else {
        decimal_bytes(a as nat);
        assert(t[0] == 45u8);
        assert(s[0] >= 48);
    }
}

// ---------------------------------------------------------------------------
// One value at most
// ---------------------------------------------------------------------------

/// The first byte tells the kinds of value apart, and none begins as a list
/// or a dictionary ends.
pub proof fn encode_first(v: Ben)
    ensures
        encode(v).len() >= 2,
        v is Int ==> encode(v)[0] == 105u8,
        v is Bytes ==> 48 <= encode(v)[0] <= 57,
        v is List ==> encode(v)[0] == 108u8,
        v is Dict ==> encode(v)[0] == 100u8,
{
    if let Ben::Bytes(b) = v {
        decimal_bytes(b.len());
        assert(encode(v)[0] == ascii(crate::text::decimal(b.len()))[0]);
    }
}

pub proof fn encode_bytes_first(b: Seq<u8>)
    ensures
        encode_bytes(b).len() >= 2,
        48 <= encode_bytes(b)[0] <= 57,
{
    decimal_bytes(b.len());
    assert(encode_bytes(b)[0] == ascii(crate::text::decimal(b.len()))[0]);
}

pub proof fn bytes_unique(s: Seq<u8>, a: Seq<u8>, b: Seq<u8>)
    requires
        starts(s, encode_bytes(a)),
        starts(s, encode_bytes(b)),
    ensures
        a == b,
{
    let x = ascii(crate::text::decimal(a.len()));
    let y = ascii(crate::text::decimal(b.len()));
    decimal_bytes(a.len());
    decimal_bytes(b.len());
    starts_split(s, x + seq![58u8], a);
    starts_split(s, y + seq![58u8], b);
    number_end_unique(s, x, y, 58u8);
    decimal_bytes_injective(a.len(), b.len());
    starts_same_len(s.skip((x + seq![58u8]).len() as int), a, b);
}

/// Bytes begin with the encoding of at most one value.
pub proof fn encode_unique(s: Seq<u8>, a: Ben, b: Ben, depth: int)
    requires
        starts(s, encode(a)),
        starts(s, encode(b)),
        readable(a, depth),
        readable(b, depth),
    ensures
        a == b,
    decreases a,
{
    encode_first(a);
    encode_first(b);
    assert(s[0] == encode(a)[0]) by {
        assert(s.take(encode(a).len() as int)[0] == encode(a)[0]);
    }
    assert(s[0] == encode(b)[0]) by {
        assert(s.take(encode(b).len() as int)[0] == encode(b)[0]);
    }
    match a {
        Ben::Int(n) => {
            let m = b->Int_0;
            let x = ascii(crate::text::signed_decimal(n));
            let y = ascii(crate::text::signed_decimal(m));
            assert(encode(a) =~= seq![105u8] + (x + seq![101u8]));
            assert(encode(b) =~= seq![105u8] + (y + seq![101u8]));
            starts_split(s, seq![105u8], x + seq![101u8]);
            starts_split(s, seq![105u8], y + seq![101u8]);
            signed_decimal_bytes(n);
            signed_decimal_bytes(m);
            number_end_unique(s.skip(1), x, y, 101u8);
            signed_decimal_bytes_injective(n, m);
        },
        Ben::Bytes(x) => {
            bytes_unique(s, x, b->Bytes_0);
        },
        Ben::List(xs) => {
            let ys = b->List_0;
            assert(encode(a) =~= seq![108u8] + (encode_all(xs) + seq![101u8]));
            assert(encode(b) =~= seq![108u8] + (encode_all(ys) + seq![101u8]));
            starts_split(s, seq![108u8], encode_all(xs) + seq![101u8]);
            starts_split(s, seq![108u8], encode_all(ys) + seq![101u8]);
            all_unique(s.skip(1), xs, ys, depth + 1);
        },
        Ben::Dict(ks, xs) => {
            let ls = b->Dict_0;
            let ys = b->Dict_1;
            assert(encode(a) =~= seq![100u8] + (encode_pairs(ks, xs) + seq![101u8]));
            assert(encode(b) =~= seq![100u8] + (encode_pairs(ls, ys) + seq![101u8]));
            starts_split(s, seq![100u8], encode_pairs(ks, xs) + seq![101u8]);
            starts_split(s, seq![100u8], encode_pairs(ls, ys) + seq![101u8]);
            pairs_unique(s.skip(1), ks, xs, ls, ys, depth + 1);
        },
    }
}

/// All of `items` can be read `depth` levels down.
pub open spec fn all_readable(items: Seq<Ben>, depth: int) -> bool {
    forall|i: int| 0 <= i < items.len() ==> readable(#[trigger] items[i], depth)
}

pub proof fn all_unique(s: Seq<u8>, xs: Seq<Ben>, ys: Seq<Ben>, depth: int)
    requires
        starts(s, encode_all(xs) + seq![101u8]),
        starts(s, encode_all(ys) + seq![101u8]),
        all_readable(xs, depth),
        all_readable(ys, depth),
    ensures
        xs == ys,
    decreases xs,
{
    starts_split(s, encode_all(xs), seq![101u8]);
    starts_split(s, encode_all(ys), seq![101u8]);
    if xs.len() == 0 && ys.len() == 0 {
        assert(xs =~= ys);
    } else if xs.len() == 0 || ys.len() == 0 {
        let (none, some) = if xs.len() == 0 {
            (xs, ys)
        } else {
            (ys, xs)
        };
        assert(s.skip(0) =~= s);
        starts_one(s.skip(encode_all(none).len() as int), 101u8);
        assert(s[0] == 101u8);
        encode_first(some[0]);
        let rest = encode_all(some.subrange(1, some.len() as int));
        starts_split(s, encode(some[0]), rest);
        assert(s.take(encode(some[0]).len() as int)[0] == encode(some[0])[0]);
    } else {
        let xr = xs.subrange(1, xs.len() as int);
        let yr = ys.subrange(1, ys.len() as int);
        assert(encode_all(xs) + seq![101u8] =~= encode(xs[0]) + (encode_all(xr) + seq![101u8]));
        assert(encode_all(ys) + seq![101u8] =~= encode(ys[0]) + (encode_all(yr) + seq![101u8]));
        starts_split(s, encode(xs[0]), encode_all(xr) + seq![101u8]);
        starts_split(s, encode(ys[0]), encode_all(yr) + seq![101u8]);
        encode_unique(s, xs[0], ys[0], depth);
        assert forall|i: int| 0 <= i < xr.len() implies readable(#[trigger] xr[i], depth) by {
            assert(xr[i] == xs[i + 1]);
        }
        assert forall|i: int| 0 <= i < yr.len() implies readable(#[trigger] yr[i], depth) by {
            assert(yr[i] == ys[i + 1]);
        }
        all_unique(s.skip(encode(xs[0]).len() as int), xr, yr, depth);
        assert(xs =~= seq![xs[0]] + xr);
        assert(ys =~= seq![ys[0]] + yr);
    }
}

pub proof fn pairs_unique(
    s: Seq<u8>,
    ks: Seq<Seq<u8>>,
    xs: Seq<Ben>,
    ls: Seq<Seq<u8>>,
    ys: Seq<Ben>,
    depth: int,
)
    requires
        starts(s, encode_pairs(ks, xs) + seq![101u8]),
        starts(s, encode_pairs(ls, ys) + seq![101u8]),
        all_readable(xs, depth),
        all_readable(ys, depth),
        ks.len() == xs.len(),
        ls.len() == ys.len(),
    ensures
        ks == ls,
        xs == ys,
    decreases xs,
{
    starts_split(s, encode_pairs(ks, xs), seq![101u8]);
    starts_split(s, encode_pairs(ls, ys), seq![101u8]);
    if xs.len() == 0 && ys.len() == 0 {
        assert(xs =~= ys);
        assert(ks =~= ls);
    } else if xs.len() == 0 || ys.len() == 0 {
        let (nk, none, sk, some) = if xs.len() == 0 {
            (ks, xs, ls, ys)
        } else {
            (ls, ys, ks, xs)
        };
        assert(s.skip(0) =~= s);
        starts_one(s.skip(encode_pairs(nk, none).len() as int), 101u8);
        assert(s[0] == 101u8);
        encode_bytes_first(sk[0]);
        let rest = encode(some[0]) + encode_pairs(
            sk.subrange(1, sk.len() as int),
            some.subrange(1, some.len() as int),
        );
        assert(encode_pairs(sk, some) =~= encode_bytes(sk[0]) + rest);
        starts_split(s, encode_bytes(sk[0]), rest);
        assert(s.take(encode_bytes(sk[0]).len() as int)[0] == encode_bytes(sk[0])[0]);
    } else {
        let kr = ks.subrange(1, ks.len() as int);
        let lr = ls.subrange(1, ls.len() as int);
        let xr = xs.subrange(1, xs.len() as int);
        let yr = ys.subrange(1, ys.len() as int);
        let xtail = encode_pairs(kr, xr) + seq![101u8];
        let ytail = encode_pairs(lr, yr) + seq![101u8];
        assert(encode_pairs(ks, xs) + seq![101u8] =~= encode_bytes(ks[0]) + (encode(xs[0])
            + xtail));
        assert(encode_pairs(ls, ys) + seq![101u8] =~= encode_bytes(ls[0]) + (encode(ys[0])
            + ytail));
        starts_split(s, encode_bytes(ks[0]), encode(xs[0]) + xtail);
        starts_split(s, encode_bytes(ls[0]), encode(ys[0]) + ytail);
        bytes_unique(s, ks[0], ls[0]);
        let s1 = s.skip(encode_bytes(ks[0]).len() as int);
        starts_split(s1, encode(xs[0]), xtail);
        starts_split(s1, encode(ys[0]), ytail);
        encode_unique(s1, xs[0], ys[0], depth);
        assert forall|i: int| 0 <= i < xr.len() implies readable(#[trigger] xr[i], depth) by {
            assert(xr[i] == xs[i + 1]);
        }
        assert forall|i: int| 0 <= i < yr.len() implies readable(#[trigger] yr[i], depth) by {
            assert(yr[i] == ys[i + 1]);
        }
        pairs_unique(s1.skip(encode(xs[0]).len() as int), kr, xr, lr, yr, depth);
        assert(xs =~= seq![xs[0]] + xr);
        assert(ys =~= seq![ys[0]] + yr);
        assert(ks =~= seq![ks[0]] + kr);
        assert(ls =~= seq![ls[0]] + lr);
    }
}

// ---------------------------------------------------------------------------
// Growing a container at its end
// ---------------------------------------------------------------------------

pub proof fn encode_all_concat(a: Seq<Ben>, b: Seq<Ben>)
    ensures
        encode_all(a + b) == encode_all(a) + encode_all(b),
    decreases a.len(),
{
    if a.len() == 0 {
        assert(a + b =~= b);
        assert(encode_all(a) + encode_all(b) =~= encode_all(b));
    } else {
        let ar = a.subrange(1, a.len() as int);
        assert((a + b).subrange(1, (a + b).len() as int) =~= ar + b);
        encode_all_concat(ar, b);
        assert(encode(a[0]) + (encode_all(ar) + encode_all(b)) =~= (encode(a[0]) + encode_all(ar))
            + encode_all(b));
    }
}

pub proof fn encode_pairs_concat(
    ka: Seq<Seq<u8>>,
    a: Seq<Ben>,
    kb: Seq<Seq<u8>>,
    b: Seq<Ben>,
)
    requires
        ka.len() == a.len(),
        kb.len() == b.len(),
    ensures
        encode_pairs(ka + kb, a + b) == encode_pairs(ka, a) + encode_pairs(kb, b),
    decreases a.len(),
{
    if a.len() == 0 {
        assert(a + b =~= b);
        assert(ka + kb =~= kb);
        assert(encode_pairs(ka, a) + encode_pairs(kb, b) =~= encode_pairs(kb, b));
    } else {
        let ar = a.subrange(1, a.len() as int);
        let kr = ka.subrange(1, ka.len() as int);
        assert((a + b).subrange(1, (a + b).len() as int) =~= ar + b);
        assert((ka + kb).subrange(1, (ka + kb).len() as int) =~= kr + kb);
        encode_pairs_concat(kr, ar, kb, b);
        let head = encode_bytes(ka[0]) + encode(a[0]);
        assert(head + (encode_pairs(kr, ar) + encode_pairs(kb, b)) =~= (head + encode_pairs(kr, ar))
            + encode_pairs(kb, b));
    }
}

pub proof fn encode_all_one(v: Ben)
    ensures
        encode_all(seq![v]) == encode(v),
{
    reveal_with_fuel(encode_all, 2);
    assert(seq![v].subrange(1, 1) =~= Seq::<Ben>::empty());
    assert(encode_all(seq![v]) =~= encode(v));
}

pub proof fn encode_pairs_one(k: Seq<u8>, v: Ben)
    ensures
        encode_pairs(seq![k], seq![v]) == encode_bytes(k) + encode(v),
{
    reveal_with_fuel(encode_pairs, 2);
    assert(seq![v].subrange(1, 1) =~= Seq::<Ben>::empty());
    assert(seq![k].subrange(1, 1) =~= Seq::<Seq<u8>>::empty());
    assert(encode_pairs(seq![k], seq![v]) =~= encode_bytes(k) + encode(v));
}

/// How values are written: a number between `i` and `e`, bytes behind their count
/// and a colon, a list between `l` and `e`, and a dictionary between `d` and `e`.
pub proof fn how_values_are_written(n: int, b: Seq<u8>, items: Seq<Ben>, keys: Seq<Seq<u8>>)
    ensures
        encode(Ben::Int(n)) == seq!['i' as u8] + ascii(crate::text::signed_decimal(n)) + seq![
            'e' as u8,
        ],
        encode(Ben::Bytes(b)) == ascii(crate::text::decimal(b.len())) + seq![':' as u8] + b,
        encode(Ben::List(items)) == seq!['l' as u8] + encode_all(items) + seq!['e' as u8],
        encode(Ben::Dict(keys, items)) == seq!['d' as u8] + encode_pairs(keys, items) + seq![
            'e' as u8,
        ],
{
}

/// A value is read down to thirty-two levels below the first, and a number where a
/// machine word of sixty-four bits holds it.
pub proof fn what_is_readable(v: Ben, depth: int, n: int, b: Seq<u8>)
    ensures
        depth > 32 ==> !readable(v, depth),
        readable(Ben::Bytes(b), depth) <==> depth <= 32,
        readable(Ben::Int(n), depth) <==> depth <= 32 && -9_223_372_036_854_775_808 <= n
            <= 9_223_372_036_854_775_807,
        readable(Ben::List(seq![v]), depth) <==> depth <= 32 && readable(v, depth + 1),
        readable(Ben::Dict(seq![b], seq![v]), depth) <==> depth <= 32 && readable(v, depth + 1),
{
    let list = Ben::List(seq![v]);
    if readable(list, depth) {
        assert(readable((list->List_0)[0], depth + 1));
    }
    let dict = Ben::Dict(seq![b], seq![v]);
    if readable(dict, depth) {
        assert(readable((dict->Dict_1)[0], depth + 1));
    }
}

} // verus!
