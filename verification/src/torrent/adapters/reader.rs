//! A recursive-descent bencode reader.
//!
//! Every value that is read keeps the byte range it came from, which is what
//! lets an info-hash be computed over the exact original bytes.

use vstd::prelude::*;
use vstd::string::*;

use super::grammar::MAX_DEPTH;
use crate::text::decimal_of;

verus! {

/// A value that was read, and where it stood.
pub struct Node {
    pub value: Value,
    /// The offset of its first byte.
    pub start: usize,
    /// The offset behind its last byte.
    pub end: usize,
}

pub enum Value {
    Int(i64),
    Bytes(Vec<u8>),
    List(Vec<Node>),
    /// The keys, and the value of each.
    Dict(Vec<Vec<u8>>, Vec<Node>),
}

/// The bytes of each byte string of a list.
pub open spec fn byte_strings(keys: Seq<Vec<u8>>) -> Seq<Seq<u8>> {
    keys.map_values(|k: Vec<u8>| k@)
}

/// The values that nodes hold.
pub open spec fn models(nodes: Seq<Node>) -> Seq<super::grammar::Ben> {
    nodes.map_values(|n: Node| n.model())
}

impl Node {
    /// The value, without where it stood.
    pub open spec fn model(self) -> super::grammar::Ben
        decreases self,
    {
        match self.value {
            Value::Int(n) => super::grammar::Ben::Int(n as int),
            Value::Bytes(b) => super::grammar::Ben::Bytes(b@),
            Value::List(items) => super::grammar::Ben::List(
                Seq::new(
                    items@.len(),
                    |i: int|
                        if 0 <= i < items@.len() {
                            items@[i].model()
                        } else {
                            arbitrary()
                        },
                ),
            ),
            Value::Dict(keys, values) => super::grammar::Ben::Dict(
                byte_strings(keys@),
                Seq::new(
                    values@.len(),
                    |i: int|
                        if 0 <= i < values@.len() {
                            values@[i].model()
                        } else {
                            arbitrary()
                        },
                ),
            ),
        }
    }

    /// The node, and each one in it, stands in `bytes` where it says.
    pub open spec fn stands_in(self, bytes: Seq<u8>) -> bool
        decreases self,
    {
        &&& written_at(bytes, self.start as int, self.model(), self.end as int)
        &&& match self.value {
            Value::Int(_) => true,
            Value::Bytes(_) => true,
            Value::List(items) => forall|i: int|
                0 <= i < items@.len() ==> (#[trigger] items@[i]).stands_in(bytes),
            Value::Dict(keys, values) => keys@.len() == values@.len() && forall|i: int|
                0 <= i < values@.len() ==> (#[trigger] values@[i]).stands_in(bytes),
        }
    }
}

/// The encoding of `v` stands in `bytes` from `start` up to `end`.
pub open spec fn written_at(
    bytes: Seq<u8>,
    start: int,
    v: super::grammar::Ben,
    end: int,
) -> bool {
    &&& 0 <= start <= end <= bytes.len()
    &&& super::grammar::starts(bytes.skip(start), super::grammar::encode(v))
    &&& end == start + super::grammar::encode(v).len()
}

/// Nothing that can be read `depth` levels down stands in `bytes` at `pos`.
pub open spec fn nothing_at(bytes: Seq<u8>, pos: int, depth: int) -> bool {
    forall|v: super::grammar::Ben|
        super::grammar::readable(v, depth) ==> !#[trigger] super::grammar::starts(
            bytes.skip(pos),
            super::grammar::encode(v),
        )
}

proof fn model_of_list(node: Node, items: Vec<Node>)
    requires
        node.value == Value::List(items),
    ensures
        node.model() == super::grammar::Ben::List(models(items@)),
{
    assert(node.model()->List_0 =~= models(items@));
}

proof fn model_of_dict(node: Node, keys: Vec<Vec<u8>>, values: Vec<Node>)
    requires
        node.value == Value::Dict(keys, values),
    ensures
        node.model() == super::grammar::Ben::Dict(byte_strings(keys@), models(values@)),
{
    assert(node.model()->Dict_1 =~= models(values@));
}

// ---------------------------------------------------------------------------
// Numbers
// ---------------------------------------------------------------------------

/// The number that decimal digits stand for.
pub open spec fn digits_value(s: Seq<u8>) -> int
    decreases s.len(),
{
    if s.len() == 0 {
        0
    } else {
        10 * digits_value(s.drop_last()) + (s.last() - 48)
    }
}

/// Only decimal digits.
pub open spec fn digits(s: Seq<u8>) -> bool {
    forall|i: int| 0 <= i < s.len() ==> 48 <= #[trigger] s[i] <= 57
}

proof fn digits_value_of_decimal(n: nat)
    ensures
        digits_value(super::grammar::ascii(crate::text::decimal(n))) == n,
    decreases n,
{
    let s = super::grammar::ascii(crate::text::decimal(n));
    if n < 10 {
        assert(s =~= seq![(48 + n) as u8]);
        assert(s.drop_last() =~= Seq::<u8>::empty());
        assert(digits_value(s.drop_last()) == 0);
    } else {
        let front = super::grammar::ascii(crate::text::decimal(n / 10));
        assert(s =~= front.push((48 + n % 10) as u8));
        assert(s.drop_last() =~= front);
        digits_value_of_decimal(n / 10);
    }
}

/// A longer run of digits stands for no smaller a number.
proof fn digits_value_grows(s: Seq<u8>, k: int)
    requires
        digits(s),
        0 <= k <= s.len(),
    ensures
        0 <= digits_value(s.take(k)) <= digits_value(s),
    decreases s.len(),
{
    if s.len() > 0 {
        let front = s.drop_last();
        assert(digits(front)) by {
            assert forall|i: int| 0 <= i < front.len() implies 48 <= #[trigger] front[i] <= 57 by {
                assert(front[i] == s[i]);
            }
        }
        if k < s.len() {
            digits_value_grows(front, k);
            assert(front.take(k) =~= s.take(k));
        } else {
            digits_value_grows(front, front.len() as int);
            assert(s.take(k) =~= s);
            assert(front.take(front.len() as int) =~= front);
        }
    } else {
        assert(s.take(k) =~= s);
    }
}

/// Digits without a leading zero are the decimal text of their number.
proof fn decimal_of_digits(s: Seq<u8>)
    requires
        digits(s),
        s.len() >= 1,
        s.len() > 1 ==> s[0] != 48,
    ensures
        digits_value(s) >= 0,
        s == super::grammar::ascii(crate::text::decimal(digits_value(s) as nat)),
    decreases s.len(),
{
    let v = digits_value(s);
    let d = s.last() - 48;
    assert(48 <= s[s.len() - 1] <= 57);
    if s.len() == 1 {
        assert(s.drop_last() =~= Seq::<u8>::empty());
        assert(digits_value(s.drop_last()) == 0);
        assert(v == d);
        assert(s =~= super::grammar::ascii(crate::text::decimal(v as nat)));
    } else {
        let front = s.drop_last();
        assert(digits(front)) by {
            assert forall|i: int| 0 <= i < front.len() implies 48 <= #[trigger] front[i] <= 57 by {
                assert(front[i] == s[i]);
            }
        }
        assert(front[0] == s[0]);
        decimal_of_digits(front);
        let w = digits_value(front);
        digits_value_grows(front, 1);
        assert(front.take(1).drop_last() =~= Seq::<u8>::empty());
        assert(digits_value(front.take(1).drop_last()) == 0);
        assert(front.take(1).last() == s[0]);
        assert(digits_value(front.take(1)) == s[0] - 48);
        assert(w >= 1);
        assert(v as nat / 10 == w as nat);
        assert(v as nat % 10 == d as nat);
        let t = super::grammar::ascii(crate::text::decimal(v as nat));
        assert(t =~= super::grammar::ascii(crate::text::decimal(w as nat)).push((48 + d) as u8));
        assert(s =~= front.push(s.last()));
        assert((48 + d) as u8 == s.last());
    }
}

/// The first digit of a decimal text is no zero, but for zero itself.
proof fn decimal_no_leading_zero(n: nat)
    requires
        n > 0,
    ensures
        super::grammar::ascii(crate::text::decimal(n))[0] != 48,
    decreases n,
{
    super::grammar::decimal_bytes(n);
    if n < 10 {
        assert(super::grammar::ascii(crate::text::decimal(n))[0] == (48 + n) as u8);
    } else {
        decimal_no_leading_zero(n / 10);
        super::grammar::decimal_bytes(n / 10);
        assert(crate::text::decimal(n)[0] == crate::text::decimal(n / 10)[0]);
        assert(super::grammar::ascii(crate::text::decimal(n))[0] == super::grammar::ascii(
            crate::text::decimal(n / 10),
        )[0]);
    }
}

/// What stops a run of bytes from being read as a number.
pub enum Trouble {
    /// A byte is no digit.
    NoDigit,
    /// The number grows beyond the limit.
    TooFar,
}

/// What stops a run of bytes, from its first on, from being read as a number up
/// to a limit.
pub open spec fn first_trouble(text: Seq<u8>, limit: int) -> Option<Trouble>
    decreases text.len(),
{
    if text.len() == 0 {
        None
    } else {
        match first_trouble(text.drop_last(), limit) {
            Some(trouble) => Some(trouble),
            None => if !(48 <= text.last() <= 57) {
                Some(Trouble::NoDigit)
            } else if digits_value(text) > limit {
                Some(Trouble::TooFar)
            } else {
                None
            },
        }
    }
}

/// Trouble among the first bytes is the trouble of all of them.
proof fn trouble_stays(text: Seq<u8>, limit: int, n: int)
    requires
        0 <= n <= text.len(),
        first_trouble(text.take(n), limit) is Some,
    ensures
        first_trouble(text, limit) == first_trouble(text.take(n), limit),
    decreases text.len(),
{
    if n < text.len() {
        assert(text.drop_last().take(n) =~= text.take(n));
        trouble_stays(text.drop_last(), limit, n);
    } else {
        assert(text.take(n) =~= text);
    }
}

/// Why a text is no number up to a limit; nothing where it is one.
pub open spec fn why_no_natural(text: Seq<u8>, limit: int) -> Option<Seq<char>> {
    if text.len() == 0 {
        Some("cannot parse integer from empty string"@)
    } else if text.len() > 1 && text[0] == 48 {
        Some("leading zero"@)
    } else {
        match first_trouble(text, limit) {
            Some(Trouble::NoDigit) => Some("invalid digit found in string"@),
            Some(Trouble::TooFar) => Some("number too large to fit in target type"@),
            None => None,
        }
    }
}

/// The bytes as characters, one for one.
pub open spec fn byte_chars(text: Seq<u8>) -> Seq<char> {
    text.map_values(|b: u8| b as char)
}

/// A byte as `0x` and two digits of base sixteen.
pub open spec fn hex_of(b: u8) -> Seq<char> {
    "0x"@ + seq![
        crate::torrent::domain::hex_digit(b as int / 16),
        crate::torrent::domain::hex_digit(b as int % 16),
    ]
}

/// `what`, then the text of a number in double quotes, then `why`.
pub open spec fn complaint(what: Seq<char>, text: Seq<u8>, why: Seq<char>) -> Seq<char> {
    what + seq!['"'] + byte_chars(text) + seq!['"'] + why
}

/// An integer of the wrong form: no digits, a zero in front of others, or a
/// negative one that begins with zero.
pub open spec fn ill_formed(text: Seq<u8>) -> bool {
    ||| text.len() == 0
    ||| text[0] == 45 && (text.len() == 1 || text[1] == 48)
    ||| text.len() > 1 && text[0] == 48
}

/// What is said of an integer beyond that it is malformed: nothing where its
/// form is wrong already, else what is wrong with its digits.
pub open spec fn int_reason(text: Seq<u8>) -> Seq<char> {
    if ill_formed(text) {
        ""@
    } else if text[0] == 45 {
        match first_trouble(text.skip(1), 9_223_372_036_854_775_808) {
            Some(Trouble::NoDigit) => ": invalid digit found in string"@,
            Some(Trouble::TooFar) => ": number too small to fit in target type"@,
            None => ""@,
        }
    } else {
        match first_trouble(text, 9_223_372_036_854_775_807) {
            Some(Trouble::NoDigit) => ": invalid digit found in string"@,
            Some(Trouble::TooFar) => ": number too large to fit in target type"@,
            None => ""@,
        }
    }
}

/// What is said where digits and minus signs do not lead up to a delimiter.
pub open spec fn number_fault(bytes: Seq<u8>, pos: int, delimiter: u8, why: Seq<char>) -> bool {
    exists|cur: int|
        pos <= cur <= bytes.len() && #[trigger] super::grammar::number_bytes(
            bytes.subrange(pos, cur),
        ) && if cur == bytes.len() {
            why == "unexpected end of input"@
        } else {
            &&& bytes[cur] != delimiter
            &&& !super::grammar::number_byte(bytes[cur])
            &&& why == "unexpected byte "@ + hex_of(bytes[cur]) + " in a number"@
        }
}

/// The text of a number stands between `pos` and the delimiter at `end`.
pub open spec fn number_stands(bytes: Seq<u8>, pos: int, end: int, delimiter: u8) -> bool {
    &&& pos <= end < bytes.len()
    &&& bytes[end] == delimiter
    &&& super::grammar::number_bytes(bytes.subrange(pos, end))
}

/// What is said where an integer begins at `pos` and cannot be read.
pub open spec fn int_fault(bytes: Seq<u8>, pos: int, why: Seq<char>) -> bool {
    ||| number_fault(bytes, pos + 1, 101, why)
    ||| exists|end: int| #[trigger]
        number_stands(bytes, pos + 1, end, 101) && why == complaint(
            "malformed integer "@,
            bytes.subrange(pos + 1, end),
            int_reason(bytes.subrange(pos + 1, end)),
        )
}

/// What is said of the length of a byte string, whose bytes begin at `from`.
pub open spec fn length_fault(text: Seq<u8>, from: int, len: int, why: Seq<char>) -> bool {
    if text.len() > 1 && text[0] == 48 {
        why == complaint("byte string length has a leading zero: "@, text, ""@)
    } else {
        match why_no_natural(text, usize::MAX as int) {
            Some(reason) => why == complaint(
                "malformed byte string length "@,
                text,
                ": "@ + reason,
            ),
            None => if from + digits_value(text) > usize::MAX {
                why == "byte string length overflows"@
            } else {
                from + digits_value(text) > len && why == "byte string runs past end of input"@
            },
        }
    }
}

/// What is said where a byte string is expected at `pos` and cannot be read.
pub open spec fn bytes_fault(bytes: Seq<u8>, pos: int, why: Seq<char>) -> bool {
    ||| number_fault(bytes, pos, 58, why)
    ||| exists|end: int| #[trigger]
        number_stands(bytes, pos, end, 58) && length_fault(
            bytes.subrange(pos, end),
            end + 1,
            bytes.len() as int,
            why,
        )
}

/// What is said where a value is expected at `pos`, `depth` levels down, and
/// cannot be read. Of a list or a dictionary: what is said of what comes after
/// the items or entries that can be read.
pub open spec fn fault(bytes: Seq<u8>, pos: int, depth: int, why: Seq<char>) -> bool
    decreases MAX_DEPTH + 1 - depth,
{
    if depth > MAX_DEPTH {
        why == "nesting exceeds limit of "@ + crate::text::decimal(MAX_DEPTH as nat)
    } else if pos >= bytes.len() {
        why == "unexpected end of input"@
    } else if bytes[pos] == 105 {
        int_fault(bytes, pos, why)
    } else if bytes[pos] == 108 {
        exists|items: Seq<super::grammar::Ben>|
            super::grammar::all_readable(items, depth + 1) && #[trigger] super::grammar::starts(
                bytes.skip(pos + 1),
                super::grammar::encode_all(items),
            ) && {
                let cur = pos + 1 + super::grammar::encode_all(items).len();
                if cur >= bytes.len() {
                    why == "unexpected end of input"@
                } else {
                    bytes[cur] != 101 && fault(bytes, cur, depth + 1, why)
                }
            }
    } else if bytes[pos] == 100 {
        exists|keys: Seq<Seq<u8>>, values: Seq<super::grammar::Ben>|
            keys.len() == values.len() && super::grammar::all_readable(values, depth + 1)
                && #[trigger] super::grammar::starts(
                bytes.skip(pos + 1),
                super::grammar::encode_pairs(keys, values),
            ) && {
                let cur = pos + 1 + super::grammar::encode_pairs(keys, values).len();
                if cur >= bytes.len() {
                    why == "unexpected end of input"@
                } else {
                    &&& bytes[cur] != 101
                    &&& {
                        ||| bytes_fault(bytes, cur, why)
                        ||| exists|key: Seq<u8>|
                            super::grammar::starts(
                                bytes.skip(cur),
                                #[trigger] super::grammar::encode_bytes(key),
                            ) && fault(
                                bytes,
                                cur + super::grammar::encode_bytes(key).len(),
                                depth + 1,
                                why,
                            )
                    }
                }
            }
    } else if 48 <= bytes[pos] <= 57 {
        bytes_fault(bytes, pos, why)
    } else {
        why == "unexpected byte "@ + hex_of(bytes[pos]) + " at offset "@ + crate::text::decimal(
            pos as nat,
        )
    }
}

/// `text` is the decimal text of no number up to `limit`.
spec fn no_number(text: Seq<u8>, limit: int) -> bool {
    forall|n: nat|
        n <= limit ==> text != #[trigger] super::grammar::ascii(crate::text::decimal(n))
}

/// Read a decimal text: digits, no leading zero, at most `limit`.
fn read_natural(text: &[u8], limit: u64) -> (r: Result<u64, &'static str>)
    ensures
        match r {
            Ok(n) => {
                &&& n <= limit
                &&& text@ == super::grammar::ascii(crate::text::decimal(n as nat))
                &&& n == digits_value(text@)
                &&& why_no_natural(text@, limit as int) is None
            },
            Err(why) => {
                &&& no_number(text@, limit as int)
                &&& why_no_natural(text@, limit as int) == Some(why@)
            },
        },
{
    if text.len() == 0 {
        proof {
            assert forall|n: nat| n <= limit implies text@ != #[trigger] super::grammar::ascii(
                crate::text::decimal(n),
            ) by {
                super::grammar::decimal_bytes(n);
            }
        }
        return Err("cannot parse integer from empty string");
    }
    if text.len() > 1 && text[0] == 48 {
        proof {
            assert forall|n: nat| n <= limit implies text@ != #[trigger] super::grammar::ascii(
                crate::text::decimal(n),
            ) by {
                if n > 0 {
                    decimal_no_leading_zero(n);
                } else {
                    assert(crate::text::decimal(0).len() == 1);
                }
            }
        }
        return Err("leading zero");
    }
    let mut value: u64 = 0;
    let mut i: usize = 0;
    while i < text.len()
        invariant
            i <= text@.len(),
            digits(text@.take(i as int)),
            value == digits_value(text@.take(i as int)),
            value <= limit,
            text@.len() > 0,
            !(text@.len() > 1 && text@[0] == 48),
            first_trouble(text@.take(i as int), limit as int) is None,
        decreases text@.len() - i,
    {
        let b: u8 = text[i];
        assert(text@.take(i + 1).drop_last() =~= text@.take(i as int));
        assert(text@.take(i + 1).last() == b);
        if b < 48 || b > 57 {
            proof {
                assert forall|n: nat| n <= limit implies text@ != #[trigger] super::grammar::ascii(
                    crate::text::decimal(n),
                ) by {
                    super::grammar::decimal_bytes(n);
                    assert(text@[i as int] == b);
                }
                trouble_stays(text@, limit as int, i + 1);
            }
            return Err("invalid digit found in string");
        }
        let wide: u128 = value as u128 * 10 + (b - 48) as u128;
        proof {
            let next = text@.take(i + 1);
            assert(next.drop_last() =~= text@.take(i as int));
            assert(next.last() == b);
            assert(digits(next)) by {
                assert forall|k: int| 0 <= k < next.len() implies 48 <= #[trigger] next[k] <= 57 by {
                    if k < i {
                        assert(text@.take(i as int)[k] == next[k]);
                    }
                }
            }
        }
        if wide > limit as u128 {
            proof {
                assert forall|n: nat| n <= limit implies text@ != #[trigger] super::grammar::ascii(
                    crate::text::decimal(n),
                ) by {
                    super::grammar::decimal_bytes(n);
                    if text@ == super::grammar::ascii(crate::text::decimal(n)) {
                        digits_value_of_decimal(n);
                        digits_value_grows(text@, i + 1);
                    }
                }
                trouble_stays(text@, limit as int, i + 1);
            }
            return Err("number too large to fit in target type");
        }
        value = wide as u64;
        i += 1;
    }
    proof {
        assert(text@.take(i as int) =~= text@);
        decimal_of_digits(text@);
    }
    Ok(value)
}

/// The text of a number, as characters.
fn number_text(text: &[u8]) -> (r: String)
    ensures
        r@ == byte_chars(text@),
{
    let mut out = String::new();
    let mut i: usize = 0;
    while i < text.len()
        invariant
            i <= text@.len(),
            out@ =~= byte_chars(text@.take(i as int)),
        decreases text@.len() - i,
    {
        out.push(text[i] as char);
        i += 1;
    }
    assert(text@.take(i as int) =~= text@);
    out
}

/// Digits and minus signs from `pos` up to the delimiter; returns where the
/// delimiter stands.
fn take_until(bytes: &[u8], pos: usize, delimiter: u8) -> (r: Result<usize, String>)
    requires
        pos <= bytes@.len(),
        !super::grammar::number_byte(delimiter),
    ensures
        match r {
            Ok(end) => {
                &&& pos <= end < bytes@.len()
                &&& bytes@[end as int] == delimiter
                &&& super::grammar::number_bytes(bytes@.subrange(pos as int, end as int))
            },
            Err(why) => {
                &&& forall|t: Seq<u8>|
                    super::grammar::number_bytes(t) ==> !#[trigger] super::grammar::starts(
                        bytes@.skip(pos as int),
                        t + seq![delimiter],
                    )
                &&& number_fault(bytes@, pos as int, delimiter, why@)
            },
        },
{
    let mut cur: usize = pos;
    while cur < bytes.len()
        invariant
            pos <= cur <= bytes@.len(),
            !super::grammar::number_byte(delimiter),
            super::grammar::number_bytes(bytes@.subrange(pos as int, cur as int)),
        decreases bytes@.len() - cur,
    {
        let b: u8 = bytes[cur];
        if b == delimiter {
            return Ok(cur);
        }
        if !(b == 45 || (48 <= b && b <= 57)) {
            proof {
                take_until_fails(bytes@, pos as int, cur as int, delimiter);
            }
            let mut message = "unexpected byte ".to_owned();
            message.append(hex_byte(b).as_str());
            message.append(" in a number");
            return Err(message);
        }
        proof {
            let next = bytes@.subrange(pos as int, cur + 1);
            assert forall|k: int| 0 <= k < next.len() implies super::grammar::number_byte(
                #[trigger] next[k],
            ) by {
                if k < cur - pos {
                    assert(next[k] == bytes@.subrange(pos as int, cur as int)[k]);
                }
            }
        }
        cur += 1;
    }
    proof {
        take_until_fails(bytes@, pos as int, cur as int, delimiter);
    }
    Err("unexpected end of input".to_owned())
}

proof fn take_until_fails(bytes: Seq<u8>, pos: int, cur: int, delimiter: u8)
    requires
        0 <= pos <= cur <= bytes.len(),
        !super::grammar::number_byte(delimiter),
        super::grammar::number_bytes(bytes.subrange(pos, cur)),
        cur < bytes.len() ==> bytes[cur] != delimiter && !super::grammar::number_byte(bytes[cur]),
    ensures
        forall|t: Seq<u8>|
            super::grammar::number_bytes(t) ==> !#[trigger] super::grammar::starts(
                bytes.skip(pos),
                t + seq![delimiter],
            ),
{
    assert forall|t: Seq<u8>| super::grammar::number_bytes(t) implies !#[trigger] super::grammar::starts(
        bytes.skip(pos),
        t + seq![delimiter],
    ) by {
        let s = bytes.skip(pos);
        let whole = t + seq![delimiter];
        if super::grammar::starts(s, whole) {
            let n = cur - pos;
            assert(whole[t.len() as int] == delimiter);
            assert(s.take(whole.len() as int)[t.len() as int] == s[t.len() as int]);
            if t.len() < n {
                assert(bytes.subrange(pos, cur)[t.len() as int] == s[t.len() as int]);
                assert(super::grammar::number_byte(bytes.subrange(pos, cur)[t.len() as int]));
            } else if cur < bytes.len() {
                assert(s[n] == bytes[cur]);
                assert(s.take(whole.len() as int)[n] == whole[n]);
                if t.len() > n {
                    assert(super::grammar::number_byte(t[n]));
                }
            }
        }
    }
}

/// A byte as `0x` and two digits of base sixteen.
fn hex_byte(b: u8) -> (r: String)
    ensures
        r@ == hex_of(b),
{
    let mut out = "0x".to_owned();
    out.push(hex_nibble(b / 16));
    out.push(hex_nibble(b % 16));
    assert(out@ =~= hex_of(b));
    out
}

fn hex_nibble(v: u8) -> (r: char)
    requires
        v < 16,
    ensures
        r == crate::torrent::domain::hex_digit(v as int),
{
    if v < 10 {
        (48u8 + v) as char
    } else {
        (87u8 + v) as char
    }
}

/// `what`, then the text of the number in double quotes, then `why`.
fn complain(what: &str, text: &[u8], why: &str) -> (r: String)
    ensures
        r@ == complaint(what@, text@, why@),
{
    let mut out = what.to_owned();
    out.push('"');
    out.append(number_text(text).as_str());
    out.push('"');
    out.append(why);
    assert(out@ =~= complaint(what@, text@, why@));
    out
}

// ---------------------------------------------------------------------------
// Integers and byte strings
// ---------------------------------------------------------------------------

/// Read the integer whose `i` stands at `pos`.
fn read_int(bytes: &[u8], pos: usize, depth: usize) -> (r: Result<(i64, usize), String>)
    requires
        pos < bytes@.len(),
        bytes@[pos as int] == 105,
        depth <= MAX_DEPTH,
    ensures
        match r {
            Ok((n, end)) => written_at(
                bytes@,
                pos as int,
                super::grammar::Ben::Int(n as int),
                end as int,
            ),
            Err(why) => {
                &&& nothing_at(bytes@, pos as int, depth as int)
                &&& int_fault(bytes@, pos as int, why@)
            },
        },
{
    let len: usize = bytes.len();
    assert(pos < len);
    let ghost s = bytes@.skip(pos as int);
    let ghost s1 = bytes@.skip(pos + 1);
    proof {
        assert(s.skip(1) =~= s1);
        assert forall|n: int| #[trigger] super::grammar::starts(
            s,
            super::grammar::encode(super::grammar::Ben::Int(n)),
        ) <==> super::grammar::starts(
            s1,
            super::grammar::ascii(crate::text::signed_decimal(n)) + seq![101u8],
        ) by {
            let x = super::grammar::ascii(crate::text::signed_decimal(n)) + seq![101u8];
            assert(super::grammar::encode(super::grammar::Ben::Int(n)) =~= seq![105u8] + x);
            super::grammar::starts_split(s, seq![105u8], x);
            super::grammar::starts_one(s, 105u8);
        }
        only_int_here(bytes@, pos as int, depth as int);
    }
    let end: usize = match take_until(bytes, pos + 1, 101) {
        Ok(end) => end,
        Err(why) => {
            proof {
                assert forall|n: int| !super::grammar::starts(
                    s,
                    #[trigger] super::grammar::encode(super::grammar::Ben::Int(n)),
                ) by {
                    super::grammar::signed_decimal_bytes(n);
                }
            }
            return Err(why);
        },
    };
    let text = &bytes[pos + 1..end];
    proof {
        text_before(bytes@, pos + 1, end as int, 101u8);
    }
    let number: Option<i64> = if text.len() > 0 && text[0] == 45 {
        let magnitude = &text[1..text.len()];
        match read_natural(magnitude, 9_223_372_036_854_775_808) {
            Ok(n) => if n == 0 {
                proof {
                    assert forall|m: int| i64::MIN <= m <= i64::MAX implies text@
                        != #[trigger] super::grammar::ascii(crate::text::signed_decimal(m)) by {
                        super::grammar::signed_decimal_bytes(m);
                        if m >= 0 {
                            super::grammar::decimal_bytes(m as nat);
                        } else if text@ == super::grammar::ascii(crate::text::signed_decimal(m)) {
                            assert(magnitude@ =~= super::grammar::ascii(
                                crate::text::decimal((-m) as nat),
                            ));
                            super::grammar::decimal_bytes_injective((-m) as nat, 0);
                        }
                    }
                }
                None
            } else {
                let wide: i128 = -(n as i128);
                proof {
                    super::grammar::signed_decimal_bytes(wide as int);
                    assert(text@ =~= seq![45u8] + magnitude@);
                }
                Some(wide as i64)
            },
            Err(_) => {
                proof {
                    assert forall|m: int| i64::MIN <= m <= i64::MAX implies text@
                        != #[trigger] super::grammar::ascii(crate::text::signed_decimal(m)) by {
                        super::grammar::signed_decimal_bytes(m);
                        if m >= 0 {
                            super::grammar::decimal_bytes(m as nat);
                        } else if text@ == super::grammar::ascii(crate::text::signed_decimal(m)) {
                            assert(magnitude@ =~= super::grammar::ascii(
                                crate::text::decimal((-m) as nat),
                            ));
                        }
                    }
                }
                None
            },
        }
    } else {
        match read_natural(text, 9_223_372_036_854_775_807) {
            Ok(n) => {
                proof {
                    super::grammar::signed_decimal_bytes(n as int);
                }
                Some(n as i64)
            },
            Err(_) => {
                proof {
                    assert forall|m: int| i64::MIN <= m <= i64::MAX implies text@
                        != #[trigger] super::grammar::ascii(crate::text::signed_decimal(m)) by {
                        super::grammar::signed_decimal_bytes(m);
                        if m < 0 && text@ == super::grammar::ascii(
                            crate::text::signed_decimal(m),
                        ) {
                            assert(text@[0] == 45);
                        }
                    }
                }
                None
            },
        }
    };
    match number {
        Some(n) => {
            proof {
                let x = super::grammar::ascii(crate::text::signed_decimal(n as int));
                assert(x == text@);
                assert(super::grammar::starts(
                    s,
                    super::grammar::encode(super::grammar::Ben::Int(n as int)),
                ));
            }
            Ok((n, end + 1))
        },
        None => {
            proof {
                assert forall|n: int| i64::MIN <= n <= i64::MAX implies !super::grammar::starts(
                    s,
                    #[trigger] super::grammar::encode(super::grammar::Ben::Int(n)),
                ) by {
                    let x = super::grammar::ascii(crate::text::signed_decimal(n));
                    super::grammar::signed_decimal_bytes(n);
                    if super::grammar::starts(
                        s,
                        super::grammar::encode(super::grammar::Ben::Int(n)),
                    ) {
                        super::grammar::number_end_unique(s1, x, text@, 101u8);
                    }
                }
                assert(number_stands(bytes@, pos + 1, end as int, 101));
            }
            Err(complain("malformed integer ", text, why_not_an_int(text)))
        },
    }
}

/// What is said of an integer that cannot be read: nothing where its form is
/// wrong already, else the reason.
fn why_not_an_int(text: &[u8]) -> (r: &'static str)
    ensures
        r@ == int_reason(text@),
{
    let negative: bool = text.len() > 0 && text[0] == 45;
    let first: usize = if negative {
        1
    } else {
        0
    };
    if text.len() == first || (negative && text[1] == 48) || (!negative && text.len() > 1 && text[0]
        == 48) {
        return "";
    }
    let found = if negative {
        find_trouble(&text[1..text.len()], 9_223_372_036_854_775_808)
    } else {
        find_trouble(text, 9_223_372_036_854_775_807)
    };
    proof {
        if negative {
            assert(text@.subrange(1, text@.len() as int) =~= text@.skip(1));
        }
    }
    match found {
        Some(Trouble::NoDigit) => ": invalid digit found in string",
        Some(Trouble::TooFar) => if negative {
            ": number too small to fit in target type"
        } else {
            ": number too large to fit in target type"
        },
        None => "",
    }
}

/// What stops a text from being read as a number up to `limit`.
fn find_trouble(text: &[u8], limit: u64) -> (r: Option<Trouble>)
    ensures
        r == first_trouble(text@, limit as int),
{
    let mut value: u64 = 0;
    let mut i: usize = 0;
    while i < text.len()
        invariant
            i <= text@.len(),
            value == digits_value(text@.take(i as int)),
            value <= limit,
            first_trouble(text@.take(i as int), limit as int) is None,
        decreases text@.len() - i,
    {
        let b: u8 = text[i];
        assert(text@.take(i + 1).drop_last() =~= text@.take(i as int));
        assert(text@.take(i + 1).last() == b);
        if b < 48 || b > 57 {
            proof {
                trouble_stays(text@, limit as int, i + 1);
            }
            return Some(Trouble::NoDigit);
        }
        let wide: u128 = value as u128 * 10 + (b - 48) as u128;
        if wide > limit as u128 {
            proof {
                trouble_stays(text@, limit as int, i + 1);
            }
            return Some(Trouble::TooFar);
        }
        value = wide as u64;
        i += 1;
    }
    assert(text@.take(i as int) =~= text@);
    None
}

/// What stands between `pos` and the delimiter, seen from `pos`.
proof fn text_before(bytes: Seq<u8>, pos: int, end: int, delimiter: u8)
    requires
        0 <= pos <= end < bytes.len(),
        bytes[end] == delimiter,
    ensures
        super::grammar::starts(
            bytes.skip(pos),
            bytes.subrange(pos, end) + seq![delimiter],
        ),
{
    let t = bytes.subrange(pos, end) + seq![delimiter];
    assert(bytes.skip(pos).take(t.len() as int) =~= t);
}

/// Where an `i` stands, only an integer can begin.
proof fn only_int_here(bytes: Seq<u8>, pos: int, depth: int)
    requires
        0 <= pos < bytes.len(),
        bytes[pos] == 105,
    ensures
        (forall|n: int|
            i64::MIN <= n <= i64::MAX ==> !super::grammar::starts(
                bytes.skip(pos),
                #[trigger] super::grammar::encode(super::grammar::Ben::Int(n)),
            )) ==> nothing_at(bytes, pos, depth),
{
    let s = bytes.skip(pos);
    assert forall|v: super::grammar::Ben|
        super::grammar::readable(v, depth) && (#[trigger] super::grammar::starts(
            s,
            super::grammar::encode(v),
        )) implies v is Int by {
        first_byte(s, v);
    }
}

proof fn first_byte(s: Seq<u8>, v: super::grammar::Ben)
    requires
        super::grammar::starts(s, super::grammar::encode(v)),
    ensures
        s.len() > 0,
        v is Int <==> s[0] == 105,
        v is Bytes <==> 48 <= s[0] <= 57,
        v is List <==> s[0] == 108,
        v is Dict <==> s[0] == 100,
{
    super::grammar::encode_first(v);
    assert(s.take(super::grammar::encode(v).len() as int)[0] == super::grammar::encode(v)[0]);
}

/// Read the byte string that stands at `pos`.
fn read_bytes(bytes: &[u8], pos: usize) -> (r: Result<(Vec<u8>, usize), String>)
    requires
        pos <= bytes@.len(),
    ensures
        match r {
            Ok((b, end)) => written_at(
                bytes@,
                pos as int,
                super::grammar::Ben::Bytes(b@),
                end as int,
            ),
            Err(why) => {
                &&& forall|b: Seq<u8>|
                    !super::grammar::starts(
                        bytes@.skip(pos as int),
                        #[trigger] super::grammar::encode_bytes(b),
                    )
                &&& bytes_fault(bytes@, pos as int, why@)
            },
        },
{
    let ghost s = bytes@.skip(pos as int);
    proof {
        assert forall|b: Seq<u8>| super::grammar::starts(
            s,
            #[trigger] super::grammar::encode_bytes(b),
        ) implies super::grammar::starts(
            s,
            super::grammar::ascii(crate::text::decimal(b.len())) + seq![58u8],
        ) by {
            super::grammar::starts_split(
                s,
                super::grammar::ascii(crate::text::decimal(b.len())) + seq![58u8],
                b,
            );
        }
    }
    let end: usize = match take_until(bytes, pos, 58) {
        Ok(end) => end,
        Err(why) => {
            proof {
                assert forall|b: Seq<u8>| !super::grammar::starts(
                    s,
                    #[trigger] super::grammar::encode_bytes(b),
                ) by {
                    super::grammar::decimal_bytes(b.len());
                }
            }
            return Err(why);
        },
    };
    let text = &bytes[pos..end];
    proof {
        text_before(bytes@, pos as int, end as int, 58u8);
        // The length is told by the text before the colon.
        assert forall|b: Seq<u8>| super::grammar::starts(
            s,
            #[trigger] super::grammar::encode_bytes(b),
        ) implies text@ == super::grammar::ascii(crate::text::decimal(b.len())) by {
            super::grammar::decimal_bytes(b.len());
            super::grammar::number_end_unique(
                s,
                super::grammar::ascii(crate::text::decimal(b.len())),
                text@,
                58u8,
            );
        }
    }
    let left: usize = bytes.len() - (end + 1);
    assert(number_stands(bytes@, pos as int, end as int, 58));
    match read_natural(text, usize::MAX as u64) {
        Ok(n) => {
            if n > left as u64 {
                proof {
                    assert forall|b: Seq<u8>| !super::grammar::starts(
                        s,
                        #[trigger] super::grammar::encode_bytes(b),
                    ) by {
                        if super::grammar::starts(s, super::grammar::encode_bytes(b)) {
                            super::grammar::decimal_bytes_injective(b.len(), n as nat);
                            assert(super::grammar::encode_bytes(b).len() == text@.len() + 1
                                + b.len());
                        }
                    }
                }
                return Err(
                    if n > (usize::MAX - (end + 1)) as u64 {
                        "byte string length overflows".to_owned()
                    } else {
                        "byte string runs past end of input".to_owned()
                    },
                );
            }
            let stop: usize = end + 1 + n as usize;
            let content = &bytes[end + 1..stop];
            proof {
                let head = text@ + seq![58u8];
                super::grammar::starts_split(s, head, content@);
                assert(s.skip(head.len() as int).take(content@.len() as int) =~= content@);
                assert(super::grammar::encode_bytes(content@) =~= head + content@);
            }
            Ok((vstd::slice::slice_to_vec(content), stop))
        },
        Err(why) => {
            proof {
                assert forall|b: Seq<u8>| !super::grammar::starts(
                    s,
                    #[trigger] super::grammar::encode_bytes(b),
                ) by {
                    if super::grammar::starts(s, super::grammar::encode_bytes(b)) {
                        assert(super::grammar::encode_bytes(b).len() <= s.len());
                        assert(b.len() <= bytes@.len());
                    }
                }
            }
            if text.len() > 1 && text[0] == 48 {
                return Err(complain("byte string length has a leading zero: ", text, ""));
            }
            let mut reason = ": ".to_owned();
            reason.append(why);
            Err(complain("malformed byte string length ", text, reason.as_str()))
        },
    }
}

// ---------------------------------------------------------------------------
// Lists and dictionaries
// ---------------------------------------------------------------------------

/// Items read so far are the first items of whatever list stands there.
proof fn read_so_far(
    s: Seq<u8>,
    items: Seq<super::grammar::Ben>,
    xs: Seq<super::grammar::Ben>,
    depth: int,
)
    requires
        super::grammar::starts(s, super::grammar::encode_all(items)),
        super::grammar::starts(s, super::grammar::encode_all(xs) + seq![101u8]),
        super::grammar::all_readable(items, depth),
        super::grammar::all_readable(xs, depth),
    ensures
        items.len() <= xs.len(),
        super::grammar::starts(
            s.skip(super::grammar::encode_all(items).len() as int),
            super::grammar::encode_all(xs.skip(items.len() as int)) + seq![101u8],
        ),
    decreases items.len(),
{
    if items.len() == 0 {
        assert(xs.skip(0) =~= xs);
        assert(s.skip(0) =~= s);
    } else {
        let ir = items.subrange(1, items.len() as int);
        let first = super::grammar::encode(items[0]);
        super::grammar::starts_split(s, first, super::grammar::encode_all(ir));
        super::grammar::encode_first(items[0]);
        assert(s.take(first.len() as int)[0] == first[0]);
        if xs.len() == 0 {
            super::grammar::starts_split(s, super::grammar::encode_all(xs), seq![101u8]);
            assert(s.skip(0) =~= s);
            super::grammar::starts_one(s, 101u8);
        } else {
            let xr = xs.subrange(1, xs.len() as int);
            let tail = super::grammar::encode_all(xr) + seq![101u8];
            assert(super::grammar::encode_all(xs) + seq![101u8] =~= super::grammar::encode(xs[0])
                + tail);
            super::grammar::starts_split(s, super::grammar::encode(xs[0]), tail);
            super::grammar::encode_unique(s, items[0], xs[0], depth);
            assert forall|i: int| 0 <= i < xr.len() implies super::grammar::readable(
                #[trigger] xr[i],
                depth,
            ) by {
                assert(xr[i] == xs[i + 1]);
            }
            assert forall|i: int| 0 <= i < ir.len() implies super::grammar::readable(
                #[trigger] ir[i],
                depth,
            ) by {
                assert(ir[i] == items[i + 1]);
            }
            read_so_far(s.skip(first.len() as int), ir, xr, depth);
            assert(s.skip(first.len() as int).skip(super::grammar::encode_all(ir).len() as int)
                =~= s.skip(super::grammar::encode_all(items).len() as int));
            assert(xr.skip(ir.len() as int) =~= xs.skip(items.len() as int));
        }
    }
}

/// Where neither an item nor the end of the list stands, no list was begun.
proof fn no_list(bytes: Seq<u8>, pos: int, items: Seq<super::grammar::Ben>, cur: int, depth: int)
    requires
        0 <= pos < cur <= bytes.len(),
        bytes[pos] == 108,
        super::grammar::starts(bytes.skip(pos + 1), super::grammar::encode_all(items)),
        super::grammar::all_readable(items, depth + 1),
        cur == pos + 1 + super::grammar::encode_all(items).len(),
        cur < bytes.len() ==> bytes[cur] != 101,
        nothing_at(bytes, cur, depth + 1),
    ensures
        nothing_at(bytes, pos, depth),
{
    let s = bytes.skip(pos);
    assert forall|v: super::grammar::Ben| super::grammar::readable(v, depth) implies !(
    #[trigger] super::grammar::starts(s, super::grammar::encode(v))) by {
        if super::grammar::starts(s, super::grammar::encode(v)) {
            first_byte(s, v);
            let xs = v->List_0;
            let body = super::grammar::encode_all(xs) + seq![101u8];
            assert(super::grammar::encode(v) =~= seq![108u8] + body);
            super::grammar::starts_split(s, seq![108u8], body);
            assert(s.skip(1) =~= bytes.skip(pos + 1));
            read_so_far(bytes.skip(pos + 1), items, xs, depth + 1);
            let here = bytes.skip(cur);
            assert(bytes.skip(pos + 1).skip(super::grammar::encode_all(items).len() as int)
                =~= here);
            let rest = xs.skip(items.len() as int);
            if rest.len() == 0 {
                super::grammar::starts_split(
                    here,
                    super::grammar::encode_all(rest),
                    seq![101u8],
                );
                assert(here.skip(0) =~= here);
                super::grammar::starts_one(here, 101u8);
            } else {
                let tail = super::grammar::encode_all(rest.subrange(1, rest.len() as int))
                    + seq![101u8];
                assert(super::grammar::encode_all(rest) + seq![101u8]
                    =~= super::grammar::encode(rest[0]) + tail);
                super::grammar::starts_split(here, super::grammar::encode(rest[0]), tail);
                assert(rest[0] == xs[items.len() as int]);
                assert(super::grammar::readable(xs[items.len() as int], depth + 1));
            }
        }
    }
}

/// Entries read so far are the first entries of whatever dictionary stands
/// there.
proof fn entries_so_far(
    s: Seq<u8>,
    ks: Seq<Seq<u8>>,
    items: Seq<super::grammar::Ben>,
    ls: Seq<Seq<u8>>,
    xs: Seq<super::grammar::Ben>,
    depth: int,
)
    requires
        super::grammar::starts(s, super::grammar::encode_pairs(ks, items)),
        super::grammar::starts(s, super::grammar::encode_pairs(ls, xs) + seq![101u8]),
        super::grammar::all_readable(items, depth),
        super::grammar::all_readable(xs, depth),
        ks.len() == items.len(),
        ls.len() == xs.len(),
    ensures
        items.len() <= xs.len(),
        super::grammar::starts(
            s.skip(super::grammar::encode_pairs(ks, items).len() as int),
            super::grammar::encode_pairs(
                ls.skip(items.len() as int),
                xs.skip(items.len() as int),
            ) + seq![101u8],
        ),
    decreases items.len(),
{
    if items.len() == 0 {
        assert(xs.skip(0) =~= xs);
        assert(ls.skip(0) =~= ls);
        assert(s.skip(0) =~= s);
    } else {
        let ir = items.subrange(1, items.len() as int);
        let kr = ks.subrange(1, ks.len() as int);
        let key = super::grammar::encode_bytes(ks[0]);
        let first = super::grammar::encode(items[0]);
        assert(super::grammar::encode_pairs(ks, items) =~= key + (first
            + super::grammar::encode_pairs(kr, ir)));
        super::grammar::starts_split(s, key, first + super::grammar::encode_pairs(kr, ir));
        super::grammar::encode_bytes_first(ks[0]);
        assert(s.take(key.len() as int)[0] == key[0]);
        if xs.len() == 0 {
            super::grammar::starts_split(s, super::grammar::encode_pairs(ls, xs), seq![101u8]);
            assert(s.skip(0) =~= s);
            super::grammar::starts_one(s, 101u8);
        } else {
            let xr = xs.subrange(1, xs.len() as int);
            let lr = ls.subrange(1, ls.len() as int);
            let tail = super::grammar::encode_pairs(lr, xr) + seq![101u8];
            assert(super::grammar::encode_pairs(ls, xs) + seq![101u8]
                =~= super::grammar::encode_bytes(ls[0]) + (super::grammar::encode(xs[0]) + tail));
            super::grammar::starts_split(
                s,
                super::grammar::encode_bytes(ls[0]),
                super::grammar::encode(xs[0]) + tail,
            );
            super::grammar::bytes_unique(s, ks[0], ls[0]);
            let s1 = s.skip(key.len() as int);
            super::grammar::starts_split(s1, first, super::grammar::encode_pairs(kr, ir));
            super::grammar::starts_split(s1, super::grammar::encode(xs[0]), tail);
            super::grammar::encode_unique(s1, items[0], xs[0], depth);
            assert forall|i: int| 0 <= i < xr.len() implies super::grammar::readable(
                #[trigger] xr[i],
                depth,
            ) by {
                assert(xr[i] == xs[i + 1]);
            }
            assert forall|i: int| 0 <= i < ir.len() implies super::grammar::readable(
                #[trigger] ir[i],
                depth,
            ) by {
                assert(ir[i] == items[i + 1]);
            }
            let s2 = s1.skip(first.len() as int);
            entries_so_far(s2, kr, ir, lr, xr, depth);
            assert(s2.skip(super::grammar::encode_pairs(kr, ir).len() as int) =~= s.skip(
                super::grammar::encode_pairs(ks, items).len() as int,
            ));
            assert(xr.skip(ir.len() as int) =~= xs.skip(items.len() as int));
            assert(lr.skip(ir.len() as int) =~= ls.skip(items.len() as int));
        }
    }
}

/// Where neither an entry nor the end of the dictionary stands, no dictionary
/// was begun.
proof fn no_dict(
    bytes: Seq<u8>,
    pos: int,
    ks: Seq<Seq<u8>>,
    items: Seq<super::grammar::Ben>,
    cur: int,
    depth: int,
)
    requires
        0 <= pos < cur <= bytes.len(),
        bytes[pos] == 100,
        ks.len() == items.len(),
        super::grammar::starts(bytes.skip(pos + 1), super::grammar::encode_pairs(ks, items)),
        super::grammar::all_readable(items, depth + 1),
        cur == pos + 1 + super::grammar::encode_pairs(ks, items).len(),
        cur < bytes.len() ==> bytes[cur] != 101,
        forall|k: Seq<u8>, v: super::grammar::Ben|
            super::grammar::readable(v, depth + 1) ==> !#[trigger] super::grammar::starts(
                bytes.skip(cur),
                super::grammar::encode_bytes(k) + super::grammar::encode(v),
            ),
    ensures
        nothing_at(bytes, pos, depth),
{
    let s = bytes.skip(pos);
    assert forall|v: super::grammar::Ben| super::grammar::readable(v, depth) implies !(
    #[trigger] super::grammar::starts(s, super::grammar::encode(v))) by {
        if super::grammar::starts(s, super::grammar::encode(v)) {
            first_byte(s, v);
            let ls = v->Dict_0;
            let xs = v->Dict_1;
            let body = super::grammar::encode_pairs(ls, xs) + seq![101u8];
            assert(super::grammar::encode(v) =~= seq![100u8] + body);
            super::grammar::starts_split(s, seq![100u8], body);
            assert(s.skip(1) =~= bytes.skip(pos + 1));
            entries_so_far(bytes.skip(pos + 1), ks, items, ls, xs, depth + 1);
            let here = bytes.skip(cur);
            assert(bytes.skip(pos + 1).skip(super::grammar::encode_pairs(ks, items).len() as int)
                =~= here);
            let rest = xs.skip(items.len() as int);
            let keys = ls.skip(items.len() as int);
            if rest.len() == 0 {
                super::grammar::starts_split(
                    here,
                    super::grammar::encode_pairs(keys, rest),
                    seq![101u8],
                );
                assert(here.skip(0) =~= here);
                super::grammar::starts_one(here, 101u8);
            } else {
                let head = super::grammar::encode_bytes(keys[0]) + super::grammar::encode(rest[0]);
                let tail = super::grammar::encode_pairs(
                    keys.subrange(1, keys.len() as int),
                    rest.subrange(1, rest.len() as int),
                ) + seq![101u8];
                assert(super::grammar::encode_pairs(keys, rest) + seq![101u8] =~= head + tail);
                super::grammar::starts_split(here, head, tail);
                assert(rest[0] == xs[items.len() as int]);
                assert(super::grammar::readable(xs[items.len() as int], depth + 1));
            }
        }
    }
}

/// Read the value that stands at `pos`, `depth` levels down.
pub fn read_node(bytes: &[u8], pos: usize, depth: usize) -> (r: Result<Node, String>)
    requires
        pos <= bytes@.len(),
        depth <= MAX_DEPTH + 1,
    ensures
        match r {
            Ok(node) => {
                &&& node.start == pos
                &&& node.stands_in(bytes@)
                &&& super::grammar::readable(node.model(), depth as int)
            },
            Err(why) => {
                &&& nothing_at(bytes@, pos as int, depth as int)
                &&& fault(bytes@, pos as int, depth as int, why@)
            },
        },
    decreases MAX_DEPTH + 1 - depth, 1nat,
{
    if depth > MAX_DEPTH {
        let mut message = "nesting exceeds limit of ".to_owned();
        message.append(decimal_of(MAX_DEPTH as u128).as_str());
        return Err(message);
    }
    let ghost s = bytes@.skip(pos as int);
    if pos >= bytes.len() {
        proof {
            assert forall|v: super::grammar::Ben| super::grammar::readable(v, depth as int) implies !(
            #[trigger] super::grammar::starts(s, super::grammar::encode(v))) by {
                super::grammar::encode_first(v);
            }
        }
        return Err("unexpected end of input".to_owned());
    }
    let lead: u8 = bytes[pos];
    if lead == 105 {
        match read_int(bytes, pos, depth) {
            Ok((n, end)) => Ok(Node { value: Value::Int(n), start: pos, end }),
            Err(why) => Err(why),
        }
    } else if lead == 108 {
        read_list(bytes, pos, depth)
    } else if lead == 100 {
        read_dict(bytes, pos, depth)
    } else if 48 <= lead && lead <= 57 {
        match read_bytes(bytes, pos) {
            Ok((b, end)) => Ok(Node { value: Value::Bytes(b), start: pos, end }),
            Err(why) => {
                proof {
                    assert forall|v: super::grammar::Ben| super::grammar::readable(
                        v,
                        depth as int,
                    ) implies !(#[trigger] super::grammar::starts(
                        s,
                        super::grammar::encode(v),
                    )) by {
                        if super::grammar::starts(s, super::grammar::encode(v)) {
                            first_byte(s, v);
                            assert(super::grammar::encode(v) == super::grammar::encode_bytes(
                                v->Bytes_0,
                            ));
                        }
                    }
                }
                Err(why)
            },
        }
    } else {
        proof {
            assert forall|v: super::grammar::Ben| super::grammar::readable(v, depth as int) implies !(
            #[trigger] super::grammar::starts(s, super::grammar::encode(v))) by {
                if super::grammar::starts(s, super::grammar::encode(v)) {
                    first_byte(s, v);
                }
            }
        }
        let mut message = "unexpected byte ".to_owned();
        message.append(hex_byte(lead).as_str());
        message.append(" at offset ");
        message.append(decimal_of(pos as u128).as_str());
        Err(message)
    }
}

/// Read the list whose `l` stands at `pos`.
fn read_list(bytes: &[u8], pos: usize, depth: usize) -> (r: Result<Node, String>)
    requires
        pos < bytes@.len(),
        bytes@[pos as int] == 108,
        depth <= MAX_DEPTH,
    ensures
        match r {
            Ok(node) => {
                &&& node.start == pos
                &&& node.stands_in(bytes@)
                &&& super::grammar::readable(node.model(), depth as int)
            },
            Err(why) => {
                &&& nothing_at(bytes@, pos as int, depth as int)
                &&& fault(bytes@, pos as int, depth as int, why@)
            },
        },
    decreases MAX_DEPTH + 1 - depth, 0nat,
{
    let len: usize = bytes.len();
    assert(pos < len);
    let mut items: Vec<Node> = Vec::new();
    let mut cur: usize = pos + 1;
    let ghost body = bytes@.skip(pos + 1);
    proof {
        assert(models(items@) =~= Seq::<super::grammar::Ben>::empty());
        assert(body.take(0) =~= Seq::<u8>::empty());
    }
    loop
        invariant
            pos < bytes@.len(),
            bytes@[pos as int] == 108,
            depth <= MAX_DEPTH,
            body == bytes@.skip(pos + 1),
            pos < cur <= bytes@.len(),
            cur == pos + 1 + super::grammar::encode_all(models(items@)).len(),
            super::grammar::starts(body, super::grammar::encode_all(models(items@))),
            super::grammar::all_readable(models(items@), depth + 1),
            forall|i: int| 0 <= i < items@.len() ==> (#[trigger] items@[i]).stands_in(bytes@),
        decreases bytes@.len() - cur,
    {
        let ghost so_far = models(items@);
        if cur >= bytes.len() {
            proof {
                assert forall|v: super::grammar::Ben| super::grammar::readable(
                    v,
                    depth + 1,
                ) implies !(#[trigger] super::grammar::starts(
                    bytes@.skip(cur as int),
                    super::grammar::encode(v),
                )) by {
                    super::grammar::encode_first(v);
                }
                no_list(bytes@, pos as int, so_far, cur as int, depth as int);
            }
            return Err("unexpected end of input".to_owned());
        }
        if bytes[cur] == 101 {
            let node = Node { value: Value::List(items), start: pos, end: cur + 1 };
            proof {
                model_of_list(node, items);
                let inner = super::grammar::encode_all(so_far);
                super::grammar::starts_split(body, inner, seq![101u8]);
                super::grammar::starts_one(body.skip(inner.len() as int), 101u8);
                let s = bytes@.skip(pos as int);
                super::grammar::starts_split(s, seq![108u8], inner + seq![101u8]);
                super::grammar::starts_one(s, 108u8);
                assert(s.skip(1) =~= body);
                assert(super::grammar::encode(node.model()) =~= seq![108u8] + (inner
                    + seq![101u8]));
            }
            return Ok(node);
        }
        match read_node(bytes, cur, depth + 1) {
            Ok(item) => {
                proof {
                    super::grammar::encode_all_concat(so_far, seq![item.model()]);
                    super::grammar::encode_all_one(item.model());
                    super::grammar::starts_split(
                        body,
                        super::grammar::encode_all(so_far),
                        super::grammar::encode(item.model()),
                    );
                    assert(body.skip(super::grammar::encode_all(so_far).len() as int)
                        =~= bytes@.skip(cur as int));
                    super::grammar::encode_first(item.model());
                }
                let next: usize = item.end;
                let ghost value = item.model();
                items.push(item);
                proof {
                    assert(models(items@) =~= so_far + seq![value]);
                    assert forall|i: int| 0 <= i < models(items@).len() implies super::grammar::readable(
                        #[trigger] models(items@)[i],
                        depth + 1,
                    ) by {
                        if i < so_far.len() {
                            assert(models(items@)[i] == so_far[i]);
                        }
                    }
                }
                cur = next;
            },
            Err(why) => {
                proof {
                    no_list(bytes@, pos as int, so_far, cur as int, depth as int);
                }
                return Err(why);
            },
        }
    }
}

/// Read the dictionary whose `d` stands at `pos`.
fn read_dict(bytes: &[u8], pos: usize, depth: usize) -> (r: Result<Node, String>)
    requires
        pos < bytes@.len(),
        bytes@[pos as int] == 100,
        depth <= MAX_DEPTH,
    ensures
        match r {
            Ok(node) => {
                &&& node.start == pos
                &&& node.stands_in(bytes@)
                &&& super::grammar::readable(node.model(), depth as int)
            },
            Err(why) => {
                &&& nothing_at(bytes@, pos as int, depth as int)
                &&& fault(bytes@, pos as int, depth as int, why@)
            },
        },
    decreases MAX_DEPTH + 1 - depth, 0nat,
{
    let len: usize = bytes.len();
    assert(pos < len);
    let mut keys: Vec<Vec<u8>> = Vec::new();
    let mut values: Vec<Node> = Vec::new();
    let mut cur: usize = pos + 1;
    let ghost body = bytes@.skip(pos + 1);
    proof {
        assert(models(values@) =~= Seq::<super::grammar::Ben>::empty());
        assert(byte_strings(keys@) =~= Seq::<Seq<u8>>::empty());
        assert(body.take(0) =~= Seq::<u8>::empty());
    }
    loop
        invariant
            pos < bytes@.len(),
            bytes@[pos as int] == 100,
            depth <= MAX_DEPTH,
            body == bytes@.skip(pos + 1),
            pos < cur <= bytes@.len(),
            keys@.len() == values@.len(),
            cur == pos + 1 + super::grammar::encode_pairs(
                byte_strings(keys@),
                models(values@),
            ).len(),
            super::grammar::starts(
                body,
                super::grammar::encode_pairs(byte_strings(keys@), models(values@)),
            ),
            super::grammar::all_readable(models(values@), depth + 1),
            forall|i: int| 0 <= i < values@.len() ==> (#[trigger] values@[i]).stands_in(bytes@),
        decreases bytes@.len() - cur,
    {
        let ghost ks = byte_strings(keys@);
        let ghost so_far = models(values@);
        let ghost here = bytes@.skip(cur as int);
        if cur >= bytes.len() {
            proof {
                assert forall|k: Seq<u8>, v: super::grammar::Ben| super::grammar::readable(
                    v,
                    depth + 1,
                ) implies !(#[trigger] super::grammar::starts(
                    here,
                    super::grammar::encode_bytes(k) + super::grammar::encode(v),
                )) by {
                    super::grammar::encode_first(v);
                }
                no_dict(bytes@, pos as int, ks, so_far, cur as int, depth as int);
            }
            return Err("unexpected end of input".to_owned());
        }
        if bytes[cur] == 101 {
            let node = Node { value: Value::Dict(keys, values), start: pos, end: cur + 1 };
            proof {
                model_of_dict(node, keys, values);
                let inner = super::grammar::encode_pairs(ks, so_far);
                super::grammar::starts_split(body, inner, seq![101u8]);
                super::grammar::starts_one(body.skip(inner.len() as int), 101u8);
                let s = bytes@.skip(pos as int);
                super::grammar::starts_split(s, seq![100u8], inner + seq![101u8]);
                super::grammar::starts_one(s, 100u8);
                assert(s.skip(1) =~= body);
                assert(super::grammar::encode(node.model()) =~= seq![100u8] + (inner
                    + seq![101u8]));
            }
            return Ok(node);
        }
        let (key, after_key): (Vec<u8>, usize) = match read_bytes(bytes, cur) {
            Ok(found) => found,
            Err(why) => {
                proof {
                    assert forall|k: Seq<u8>, v: super::grammar::Ben| super::grammar::readable(
                        v,
                        depth + 1,
                    ) implies !(#[trigger] super::grammar::starts(
                        here,
                        super::grammar::encode_bytes(k) + super::grammar::encode(v),
                    )) by {
                        super::grammar::starts_split(
                            here,
                            super::grammar::encode_bytes(k),
                            super::grammar::encode(v),
                        );
                    }
                    no_dict(bytes@, pos as int, ks, so_far, cur as int, depth as int);
                }
                return Err(why);
            },
        };
        match read_node(bytes, after_key, depth + 1) {
            Ok(item) => {
                let ghost pair = super::grammar::encode_bytes(key@) + super::grammar::encode(
                    item.model(),
                );
                proof {
                    super::grammar::encode_pairs_concat(
                        ks,
                        so_far,
                        seq![key@],
                        seq![item.model()],
                    );
                    super::grammar::encode_pairs_one(key@, item.model());
                    super::grammar::starts_split(
                        body,
                        super::grammar::encode_pairs(ks, so_far),
                        pair,
                    );
                    assert(body.skip(super::grammar::encode_pairs(ks, so_far).len() as int)
                        =~= here);
                    super::grammar::starts_split(
                        here,
                        super::grammar::encode_bytes(key@),
                        super::grammar::encode(item.model()),
                    );
                    assert(here.skip(super::grammar::encode_bytes(key@).len() as int)
                        =~= bytes@.skip(after_key as int));
                    super::grammar::encode_first(item.model());
                }
                let next: usize = item.end;
                let ghost value = item.model();
                let ghost name = key@;
                keys.push(key);
                values.push(item);
                proof {
                    assert(models(values@) =~= so_far + seq![value]);
                    assert(byte_strings(keys@) =~= ks + seq![name]);
                    assert forall|i: int| 0 <= i < models(values@).len() implies super::grammar::readable(
                        #[trigger] models(values@)[i],
                        depth + 1,
                    ) by {
                        if i < so_far.len() {
                            assert(models(values@)[i] == so_far[i]);
                        }
                    }
                }
                cur = next;
            },
            Err(why) => {
                proof {
                    assert forall|k: Seq<u8>, v: super::grammar::Ben| super::grammar::readable(
                        v,
                        depth + 1,
                    ) implies !(#[trigger] super::grammar::starts(
                        here,
                        super::grammar::encode_bytes(k) + super::grammar::encode(v),
                    )) by {
                        super::grammar::starts_split(
                            here,
                            super::grammar::encode_bytes(k),
                            super::grammar::encode(v),
                        );
                        if super::grammar::starts(
                            here,
                            super::grammar::encode_bytes(k) + super::grammar::encode(v),
                        ) {
                            super::grammar::bytes_unique(here, k, key@);
                            assert(here.skip(super::grammar::encode_bytes(key@).len() as int)
                                =~= bytes@.skip(after_key as int));
                        }
                    }
                    no_dict(bytes@, pos as int, ks, so_far, cur as int, depth as int);
                }
                return Err(why);
            },
        }
    }
}

} // verus!
