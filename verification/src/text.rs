//! Characters, digits and small string operations.
//!
//! A string is the sequence of its characters. Everything here that builds or
//! takes apart a string says what it does to that sequence.

use vstd::prelude::*;
use vstd::string::*;

verus! {

/// `String::push` adds one character at the end of the string and changes
/// nothing before it.
pub assume_specification[ String::push ](s: &mut String, c: char)
    ensures
        final(s)@ == old(s)@.push(c),
;

/// Whether two strings hold the same characters.
pub fn same(a: &str, b: &str) -> (r: bool)
    ensures
        r == (a@ == b@),
{
    a.to_owned() == b.to_owned()
}

/// The characters of a string, in order.
pub fn chars_of(s: &str) -> (r: Vec<char>)
    ensures
        r@ == s@,
{
    let mut out: Vec<char> = Vec::new();
    for c in it: s.chars()
        invariant
            out@ == it.seq().take(it.index()),
            it.seq() == s@,
    {
        out.push(c);
    }
    out
}

/// The string made of the given characters.
pub fn string_of(v: &[char]) -> (r: String)
    ensures
        r@ == v@,
{
    let mut out = String::new();
    let mut i: usize = 0;
    while i < v.len()
        invariant
            i <= v@.len(),
            out@ == v@.take(i as int),
        decreases v@.len() - i,
    {
        out.push(v[i]);
        i += 1;
    }
    out
}

/// The length of a string in bytes of UTF-8.
pub open spec fn byte_len(s: Seq<char>) -> nat {
    vstd::utf8::encode_utf8(s).len()
}

/// How many bytes of UTF-8 a string takes.
pub fn byte_count(s: &str) -> (r: usize)
    ensures
        r == byte_len(s@),
{
    s.as_bytes().len()
}

/// What `{:?}` makes of a string: double quotes around it, and an escape for
/// each character that needs one.
pub uninterp spec fn quoted(s: Seq<char>) -> Seq<char>;

/// Calls the standard library's `Debug` for `str` through `format!("{:?}")`.
/// The result depends on the string alone; which characters are escaped is
/// not spelled out.
#[verifier::external_body]
pub(crate) fn quote(s: &str) -> (r: String)
    ensures
        r@ == quoted(s@),
{
    format!("{s:?}")
}

// ---------------------------------------------------------------------------
// Digits
// ---------------------------------------------------------------------------

/// The character of one decimal digit.
pub open spec fn digit(d: int) -> char {
    (('0' as int) + d) as char
}

/// The decimal text of a natural number, without leading zeros.
pub open spec fn decimal(n: nat) -> Seq<char>
    decreases n,
{
    if n < 10 {
        seq![digit(n as int)]
    } else {
        decimal(n / 10).push(digit((n % 10) as int))
    }
}

/// The decimal text of an integer: a minus sign for a negative one.
pub open spec fn signed_decimal(n: int) -> Seq<char> {
    if n < 0 {
        seq!['-'] + decimal((-n) as nat)
    } else {
        decimal(n as nat)
    }
}

fn push_decimal(out: &mut String, n: u128)
    ensures
        final(out)@ == old(out)@ + decimal(n as nat),
    decreases n,
{
    if n >= 10 {
        push_decimal(out, n / 10);
    }
    let d: u8 = (n % 10) as u8;
    let code: u8 = 48u8 + d;
    let c: char = code as char;
    assert(c == digit((n % 10) as int));
    proof {
        let before = old(out)@;
        if n >= 10 {
            assert((before + decimal(n as nat / 10)).push(c) =~= before + decimal(
                n as nat / 10,
            ).push(c));
        } else {
            assert(before.push(c) =~= before + seq![c]);
        }
    }
    out.push(c);
}

/// The decimal text of a natural number.
pub fn decimal_of(n: u128) -> (r: String)
    ensures
        r@ == decimal(n as nat),
{
    let mut out = String::new();
    push_decimal(&mut out, n);
    assert(Seq::<char>::empty() + decimal(n as nat) =~= decimal(n as nat));
    out
}

/// The decimal text of an integer.
pub fn signed_decimal_of(n: i64) -> (r: String)
    ensures
        r@ == signed_decimal(n as int),
{
    let mut out = String::new();
    if n < 0 {
        out.push('-');
        let wide: i128 = n as i128;
        let magnitude: u128 = (-wide) as u128;
        push_decimal(&mut out, magnitude);
        assert(Seq::<char>::empty().push('-') =~= seq!['-']);
    } else {
        push_decimal(&mut out, n as u128);
        assert(Seq::<char>::empty() + decimal(n as nat) =~= decimal(n as nat));
    }
    out
}

/// Two numbers with the same decimal text are the same number.
pub proof fn decimal_injective(a: nat, b: nat)
    requires
        decimal(a) == decimal(b),
    ensures
        a == b,
    decreases a,
{
    decimal_len_positive(a / 10);
    decimal_len_positive(b / 10);
    assert(decimal(a).last() == decimal(b).last());
    assert(decimal(a).last() == digit((a % 10) as int));
    assert(decimal(b).last() == digit((b % 10) as int));
    assert(digit((a % 10) as int) as int == 48 + a % 10);
    assert(digit((b % 10) as int) as int == 48 + b % 10);
    if a >= 10 && b >= 10 {
        assert(decimal(a).drop_last() =~= decimal(a / 10));
        assert(decimal(b).drop_last() =~= decimal(b / 10));
        decimal_injective(a / 10, b / 10);
    }
}

proof fn decimal_len_positive(n: nat)
    ensures
        decimal(n).len() >= 1,
        n >= 10 ==> decimal(n).len() >= 2,
    decreases n,
{
    if n >= 10 {
        decimal_len_positive(n / 10);
    }
}

/// Ten to the power `k`.
pub open spec fn ten_to(k: nat) -> nat
    decreases k,
{
    if k == 0 {
        1
    } else {
        10 * ten_to((k - 1) as nat)
    }
}

/// A number below ten to the power `k` has at most `k` digits.
pub proof fn decimal_len_bound(n: nat, k: nat)
    requires
        n < ten_to(k),
        k >= 1,
    ensures
        decimal(n).len() <= k,
    decreases k,
{
    if n >= 10 {
        if k == 1 {
            assert(ten_to(0) == 1);
        } else {
            assert(n / 10 < ten_to((k - 1) as nat));
            decimal_len_bound(n / 10, (k - 1) as nat);
        }
    }
}

/// Every character of a decimal text is a decimal digit.
pub proof fn decimal_is_digits(n: nat)
    ensures
        decimal(n).len() >= 1,
        forall|i: int| 0 <= i < decimal(n).len() ==> '0' <= #[trigger] decimal(n)[i] <= '9',
    decreases n,
{
    if n >= 10 {
        decimal_is_digits(n / 10);
    }
}

// ---------------------------------------------------------------------------
// Splitting and joining
// ---------------------------------------------------------------------------

/// The characters of each string of a list.
pub open spec fn texts(parts: Seq<String>) -> Seq<Seq<char>> {
    parts.map_values(|s: String| s@)
}

/// Add a string at the end of a list.
pub fn push_text(list: &mut Vec<String>, s: &str)
    ensures
        texts(final(list)@) == texts(old(list)@).push(s@),
{
    let ghost before = texts(list@);
    let owned = s.to_owned();
    list.push(owned);
    assert(texts(list@) =~= before.push(s@));
}

/// The fields of `s` between the separators, in order. A string without a
/// separator is one field; the empty string is one empty field.
pub open spec fn fields(s: Seq<char>, sep: char) -> Seq<Seq<char>>
    decreases s.len(),
{
    if s.len() == 0 {
        seq![Seq::<char>::empty()]
    } else {
        let rest = fields(s.drop_last(), sep);
        if s.last() == sep {
            rest.push(Seq::<char>::empty())
        } else {
            rest.drop_last().push(rest.last().push(s.last()))
        }
    }
}

/// The parts with a separator between each two of them.
pub open spec fn joined(parts: Seq<Seq<char>>, sep: char) -> Seq<char>
    decreases parts.len(),
{
    if parts.len() == 0 {
        Seq::<char>::empty()
    } else if parts.len() == 1 {
        parts[0]
    } else {
        joined(parts.drop_last(), sep) + seq![sep] + parts.last()
    }
}

/// There is always a field, and no field holds the separator.
pub proof fn fields_hold_no_separator(s: Seq<char>, sep: char)
    ensures
        fields(s, sep).len() >= 1,
        forall|i: int|
            0 <= i < fields(s, sep).len() ==> !(#[trigger] fields(s, sep)[i]).contains(sep),
    decreases s.len(),
{
    if s.len() > 0 {
        let rest = fields(s.drop_last(), sep);
        fields_hold_no_separator(s.drop_last(), sep);
        assert forall|i: int| 0 <= i < fields(s, sep).len() implies !(#[trigger] fields(
            s,
            sep,
        )[i]).contains(sep) by {
            if s.last() != sep && i == rest.len() - 1 {
                let f = fields(s, sep)[i];
                assert(f == rest.last().push(s.last()));
                if f.contains(sep) {
                    let k = choose|k: int| 0 <= k < f.len() && f[k] == sep;
                    assert(k < rest.last().len());
                    assert(rest.last()[k] == sep);
                    assert(rest[rest.len() - 1].contains(sep));
                }
            } else if s.last() != sep {
                assert(fields(s, sep)[i] == rest[i]);
            }
        }
    }
}

/// Joining the fields of a string gives the string back.
pub proof fn joined_fields(s: Seq<char>, sep: char)
    ensures
        joined(fields(s, sep), sep) == s,
    decreases s.len(),
{
    if s.len() > 0 {
        let rest = fields(s.drop_last(), sep);
        fields_hold_no_separator(s.drop_last(), sep);
        joined_fields(s.drop_last(), sep);
        if s.last() == sep {
            assert(fields(s, sep).drop_last() =~= rest);
            assert(joined(fields(s, sep), sep) =~= s);
        } else {
            assert(fields(s, sep).drop_last() =~= rest.drop_last());
            if rest.len() == 1 {
                let f = fields(s, sep);
                assert(rest[0] == s.drop_last());
                assert(f.len() == 1 && f[0] =~= s);
            } else {
                let front = joined(rest.drop_last(), sep) + seq![sep];
                assert(front + rest.last() == s.drop_last());
                assert(joined(fields(s, sep), sep) == front + rest.last().push(s.last()));
                assert(front + rest.last().push(s.last()) =~= (front + rest.last()).push(s.last()));
                assert(s.drop_last().push(s.last()) =~= s);
            }
        }
    } else {
        assert(joined(fields(s, sep), sep) =~= s);
    }
}

/// A string without a separator is its own only field.
pub proof fn fields_of_plain(s: Seq<char>, sep: char)
    requires
        !s.contains(sep),
    ensures
        fields(s, sep) == seq![s],
    decreases s.len(),
{
    if s.len() > 0 {
        assert(!s.drop_last().contains(sep)) by {
            assert forall|k: int| 0 <= k < s.len() - 1 implies s.drop_last()[k] != sep by {
                assert(s.contains(s[k]));
            }
        }
        assert(s.last() != sep) by {
            assert(s.contains(s[s.len() - 1]));
        }
        fields_of_plain(s.drop_last(), sep);
        assert(fields(s, sep) =~= seq![s]) by {
            assert(s.drop_last().push(s.last()) =~= s);
        }
    } else {
        assert(s =~= Seq::<char>::empty());
    }
}

/// A separator between two strings keeps their fields apart.
pub proof fn fields_of_pair(a: Seq<char>, sep: char, b: Seq<char>)
    ensures
        fields(a + seq![sep] + b, sep) == fields(a, sep) + fields(b, sep),
    decreases b.len(),
{
    let whole = a + seq![sep] + b;
    if b.len() == 0 {
        assert(whole.drop_last() =~= a);
        assert(whole.last() == sep);
        assert(fields(whole, sep) =~= fields(a, sep) + fields(b, sep));
    } else {
        assert(whole.drop_last() =~= a + seq![sep] + b.drop_last());
        assert(whole.last() == b.last());
        fields_of_pair(a, sep, b.drop_last());
        fields_hold_no_separator(b.drop_last(), sep);
        let left = fields(a, sep);
        let rest = fields(b.drop_last(), sep);
        assert((left + rest).last() == rest.last());
        assert((left + rest).drop_last() =~= left + rest.drop_last());
        assert(fields(whole, sep) =~= left + fields(b, sep));
    }
}

/// Splitting what was joined gives the parts back, provided that there is a
/// part and none holds the separator.
pub proof fn fields_of_joined(parts: Seq<Seq<char>>, sep: char)
    requires
        parts.len() >= 1,
        forall|i: int| 0 <= i < parts.len() ==> !(#[trigger] parts[i]).contains(sep),
    ensures
        fields(joined(parts, sep), sep) == parts,
    decreases parts.len(),
{
    if parts.len() == 1 {
        fields_of_plain(parts[0], sep);
        assert(seq![parts[0]] =~= parts);
    } else {
        let front = parts.drop_last();
        assert forall|i: int| 0 <= i < front.len() implies !(#[trigger] front[i]).contains(sep) by {
            assert(front[i] == parts[i]);
        }
        fields_of_joined(front, sep);
        assert(!parts[parts.len() - 1].contains(sep));
        fields_of_plain(parts.last(), sep);
        fields_of_pair(joined(front, sep), sep, parts.last());
        assert(front + seq![parts.last()] =~= parts);
    }
}

/// Split a string at every separator.
pub fn split(s: &str, sep: char) -> (r: Vec<String>)
    ensures
        texts(r@) == fields(s@, sep),
        r@.len() >= 1,
{
    let chars = chars_of(s);
    let mut out: Vec<String> = Vec::new();
    let mut current = String::new();
    let mut i: usize = 0;
    assert(texts(out@).push(current@) =~= fields(s@.take(0), sep));
    while i < chars.len()
        invariant
            chars@ == s@,
            i <= chars@.len(),
            texts(out@).push(current@) == fields(s@.take(i as int), sep),
        decreases chars@.len() - i,
    {
        let c = chars[i];
        let ghost before = texts(out@).push(current@);
        proof {
            assert(s@.take(i + 1).drop_last() =~= s@.take(i as int));
            assert(before.drop_last() =~= texts(out@));
        }
        if c == sep {
            out.push(current);
            current = String::new();
            assert(texts(out@) =~= before);
        } else {
            current.push(c);
        }
        i += 1;
    }
    assert(s@.take(i as int) =~= s@);
    let ghost all = texts(out@).push(current@);
    out.push(current);
    assert(texts(out@) =~= all);
    out
}

/// Join strings with a separator between each two of them.
pub fn join(parts: &[String], sep: char) -> (r: String)
    ensures
        r@ == joined(texts(parts@), sep),
{
    let mut out = String::new();
    let mut i: usize = 0;
    while i < parts.len()
        invariant
            i <= parts@.len(),
            out@ == joined(texts(parts@).take(i as int), sep),
        decreases parts@.len() - i,
    {
        proof {
            assert(texts(parts@).take(i + 1).drop_last() =~= texts(parts@).take(i as int));
        }
        if i > 0 {
            out.push(sep);
        }
        out.append(parts[i].as_str());
        proof {
            let so_far = joined(texts(parts@).take(i as int), sep);
            if i > 0 {
                assert(out@ =~= so_far + seq![sep] + parts@[i as int]@);
            } else {
                assert(out@ =~= parts@[i as int]@);
            }
        }
        i += 1;
    }
    assert(texts(parts@).take(i as int) =~= texts(parts@));
    out
}

// ---------------------------------------------------------------------------
// Comparing
// ---------------------------------------------------------------------------

/// Whether `s` begins with the given character.
pub open spec fn begins_with(s: Seq<char>, c: char) -> bool {
    s.len() > 0 && s[0] == c
}

/// Whether `c` occurs among the characters.
pub fn holds(chars: &[char], c: char) -> (r: bool)
    ensures
        r == chars@.contains(c),
{
    let mut i: usize = 0;
    while i < chars.len()
        invariant
            i <= chars@.len(),
            forall|k: int| 0 <= k < i ==> chars@[k] != c,
        decreases chars@.len() - i,
    {
        if chars[i] == c {
            assert(chars@.contains(chars@[i as int]));
            return true;
        }
        i += 1;
    }
    false
}

/// The order of strings: by the first character in which they differ, a
/// proper prefix first. Code point order, as for the bytes of UTF-8.
pub open spec fn precedes(a: Seq<char>, b: Seq<char>) -> bool
    decreases a.len(),
{
    if b.len() == 0 {
        false
    } else if a.len() == 0 {
        true
    } else if a[0] != b[0] {
        a[0] < b[0]
    } else {
        precedes(a.drop_first(), b.drop_first())
    }
}

/// Whether `a` comes strictly before `b` in the order of strings.
pub fn comes_before(a: &str, b: &str) -> (r: bool)
    ensures
        r == precedes(a@, b@),
{
    let left = chars_of(a);
    let right = chars_of(b);
    let mut i: usize = 0;
    assert(a@.skip(0) =~= a@ && b@.skip(0) =~= b@);
    while i < left.len() && i < right.len()
        invariant
            left@ == a@,
            right@ == b@,
            i <= left@.len(),
            i <= right@.len(),
            precedes(a@, b@) == precedes(a@.skip(i as int), b@.skip(i as int)),
        decreases left@.len() - i,
    {
        let ghost x = a@.skip(i as int);
        let ghost y = b@.skip(i as int);
        if left[i] != right[i] {
            assert(x[0] == left@[i as int] && y[0] == right@[i as int]);
            return left[i] < right[i];
        }
        proof {
            assert(x[0] == left@[i as int] && y[0] == right@[i as int]);
            assert(x.drop_first() =~= a@.skip(i + 1));
            assert(y.drop_first() =~= b@.skip(i + 1));
        }
        i += 1;
    }
    left.len() < right.len()
}

/// The order of strings is strict: nothing precedes itself.
pub proof fn precedes_irreflexive(a: Seq<char>)
    ensures
        !precedes(a, a),
    decreases a.len(),
{
    if a.len() > 0 {
        precedes_irreflexive(a.drop_first());
    }
}

/// The order of strings is transitive.
pub proof fn precedes_transitive(a: Seq<char>, b: Seq<char>, c: Seq<char>)
    requires
        precedes(a, b),
        precedes(b, c),
    ensures
        precedes(a, c),
    decreases a.len(),
{
    if a.len() > 0 && a[0] == b[0] && b[0] == c[0] {
        precedes_transitive(a.drop_first(), b.drop_first(), c.drop_first());
    }
}

/// Two different strings are ordered one way or the other.
pub proof fn precedes_total(a: Seq<char>, b: Seq<char>)
    ensures
        a == b || precedes(a, b) || precedes(b, a),
    decreases a.len(),
{
    if a.len() > 0 && b.len() > 0 && a[0] == b[0] {
        precedes_total(a.drop_first(), b.drop_first());
        if a.drop_first() == b.drop_first() {
            assert(a =~= seq![a[0]] + a.drop_first());
            assert(b =~= seq![b[0]] + b.drop_first());
        }
    } else if a.len() == 0 && b.len() == 0 {
        assert(a =~= b);
    }
}

// ---------------------------------------------------------------------------
// Letter case
// ---------------------------------------------------------------------------

/// The lower case of an ASCII letter; any other character as it is.
pub open spec fn lower(c: char) -> char {
    if 'A' <= c <= 'Z' {
        (c as int + 32) as char
    } else {
        c
    }
}

/// The upper case of an ASCII letter; any other character as it is.
pub open spec fn upper(c: char) -> char {
    if 'a' <= c <= 'z' {
        (c as int - 32) as char
    } else {
        c
    }
}

/// Every ASCII letter in lower case.
pub open spec fn lowered(s: Seq<char>) -> Seq<char> {
    s.map_values(|c: char| lower(c))
}

/// The lower case of an ASCII letter; any other character as it is.
pub fn lower_of(c: char) -> (r: char)
    ensures
        r == lower(c),
{
    if 'A' <= c && c <= 'Z' {
        let code: u8 = (c as u32 + 32) as u8;
        code as char
    } else {
        c
    }
}

/// The upper case of an ASCII letter; any other character as it is.
pub fn upper_of(c: char) -> (r: char)
    ensures
        r == upper(c),
{
    if 'a' <= c && c <= 'z' {
        let code: u8 = (c as u32 - 32) as u8;
        code as char
    } else {
        c
    }
}

/// The string with every ASCII letter in lower case.
pub fn lower_string(s: &str) -> (r: String)
    ensures
        r@ == lowered(s@),
{
    let chars = chars_of(s);
    let mut out = String::new();
    let mut i: usize = 0;
    while i < chars.len()
        invariant
            chars@ == s@,
            i <= chars@.len(),
            out@ == lowered(s@.take(i as int)),
        decreases chars@.len() - i,
    {
        out.push(lower_of(chars[i]));
        assert(out@ =~= lowered(s@.take(i + 1)));
        i += 1;
    }
    assert(s@.take(i as int) =~= s@);
    out
}

/// Whether two strings are the same but for the case of ASCII letters.
pub fn same_ignoring_case(a: &str, b: &str) -> (r: bool)
    ensures
        r == (lowered(a@) == lowered(b@)),
{
    same(lower_string(a).as_str(), lower_string(b).as_str())
}

// ---------------------------------------------------------------------------
// Trimming
// ---------------------------------------------------------------------------

/// A character with the Unicode property `White_Space`.
pub open spec fn is_space(c: char) -> bool {
    ||| '\u{9}' <= c <= '\u{d}'
    ||| c == ' '
    ||| c == '\u{85}'
    ||| c == '\u{a0}'
    ||| c == '\u{1680}'
    ||| '\u{2000}' <= c <= '\u{200a}'
    ||| c == '\u{2028}'
    ||| c == '\u{2029}'
    ||| c == '\u{202f}'
    ||| c == '\u{205f}'
    ||| c == '\u{3000}'
}

/// Without the white space at the start.
pub open spec fn trimmed_start(s: Seq<char>) -> Seq<char>
    decreases s.len(),
{
    if s.len() > 0 && is_space(s[0]) {
        trimmed_start(s.drop_first())
    } else {
        s
    }
}

/// Without the white space at the end.
pub open spec fn trimmed_end(s: Seq<char>) -> Seq<char>
    decreases s.len(),
{
    if s.len() > 0 && is_space(s.last()) {
        trimmed_end(s.drop_last())
    } else {
        s
    }
}

/// Without the white space at both ends.
pub open spec fn trimmed(s: Seq<char>) -> Seq<char> {
    trimmed_end(trimmed_start(s))
}

/// Without the line breaks at the end.
pub open spec fn without_line_breaks(s: Seq<char>) -> Seq<char>
    decreases s.len(),
{
    if s.len() > 0 && (s.last() == '\n' || s.last() == '\r') {
        without_line_breaks(s.drop_last())
    } else {
        s
    }
}

fn space(c: char) -> (r: bool)
    ensures
        r == is_space(c),
{
    ('\u{9}' <= c && c <= '\u{d}') || c == ' ' || c == '\u{85}' || c == '\u{a0}' || c == '\u{1680}'
        || ('\u{2000}' <= c && c <= '\u{200a}') || c == '\u{2028}' || c == '\u{2029}' || c
        == '\u{202f}' || c == '\u{205f}' || c == '\u{3000}'
}

/// The string without the white space at both ends.
pub fn trim(s: &str) -> (r: String)
    ensures
        r@ == trimmed(s@),
{
    let chars = chars_of(s);
    let mut from: usize = 0;
    assert(s@.skip(0) =~= s@);
    while from < chars.len() && space(chars[from])
        invariant
            chars@ == s@,
            from <= chars@.len(),
            trimmed_start(s@) == trimmed_start(s@.skip(from as int)),
        decreases chars@.len() - from,
    {
        proof {
            assert(s@.skip(from as int)[0] == chars@[from as int]);
            assert(s@.skip(from as int).drop_first() =~= s@.skip(from + 1));
        }
        from += 1;
    }
    let ghost front = s@.skip(from as int);
    proof {
        if from < s@.len() {
            assert(front[0] == chars@[from as int]);
        }
        assert(trimmed_start(s@) == front);
    }
    let mut to: usize = chars.len();
    assert(s@.subrange(from as int, to as int) =~= front);
    while to > from && space(chars[to - 1])
        invariant
            chars@ == s@,
            from <= to <= chars@.len(),
            trimmed_end(front) == trimmed_end(s@.subrange(from as int, to as int)),
        decreases to,
    {
        proof {
            let now = s@.subrange(from as int, to as int);
            assert(now.last() == chars@[to - 1]);
            assert(now.drop_last() =~= s@.subrange(from as int, to - 1));
        }
        to -= 1;
    }
    proof {
        let now = s@.subrange(from as int, to as int);
        if to > from {
            assert(now.last() == chars@[to - 1]);
        }
        assert(trimmed_end(now) == now);
    }
    string_of(&chars[from..to])
}

/// The string without the line breaks at its end.
pub fn trim_line_breaks(s: &str) -> (r: String)
    ensures
        r@ == without_line_breaks(s@),
{
    let chars = chars_of(s);
    let mut to: usize = chars.len();
    assert(s@.take(to as int) =~= s@);
    while to > 0 && (chars[to - 1] == '\n' || chars[to - 1] == '\r')
        invariant
            chars@ == s@,
            to <= chars@.len(),
            without_line_breaks(s@) == without_line_breaks(s@.take(to as int)),
        decreases to,
    {
        assert(s@.take(to as int).drop_last() =~= s@.take(to - 1));
        to -= 1;
    }
    proof {
        let now = s@.take(to as int);
        if to > 0 {
            assert(now.last() == chars@[to - 1]);
        }
        assert(without_line_breaks(now) == now);
        assert(chars@.subrange(0, to as int) =~= now);
    }
    string_of(&chars[0..to])
}

/// A number is written in tens: its last digit behind what is left of it divided
/// by ten; a number below ten is its digit, and a negative one has a minus before
/// it.
pub proof fn numbers_are_written_in_tens(n: nat, d: int)
    requires
        0 <= d < 10,
    ensures
        decimal(d as nat) == seq![('0' as int + d) as char],
        n > 0 ==> decimal((10 * n + d) as nat) == decimal(n).push(('0' as int + d) as char),
        n > 0 ==> signed_decimal(-n) == seq!['-'] + decimal(n),
        signed_decimal(n as int) == decimal(n),
{
    if n > 0 {
        let m = (10 * n + d) as nat;
        assert(m / 10 == n && m % 10 == d);
    }
}

/// Only the letters of ASCII have another case: a capital is thirty-two before its
/// small letter, and lowering what was lowered changes nothing.
pub proof fn only_ascii_letters_change_case(s: Seq<char>, i: int)
    requires
        0 <= i < s.len(),
    ensures
        lowered(s).len() == s.len(),
        'A' <= s[i] <= 'Z' ==> lowered(s)[i] as int == s[i] as int + 32,
        !('A' <= s[i] <= 'Z') ==> lowered(s)[i] == s[i],
        'a' <= s[i] <= 'z' ==> upper(s[i]) as int == s[i] as int - 32,
        !('a' <= s[i] <= 'z') ==> upper(s[i]) == s[i],
        lowered(lowered(s)) == lowered(s),
{
    assert forall|k: int| 0 <= k < s.len() implies lowered(lowered(s))[k] == lowered(s)[k] by {
        let c = s[k];
        if 'A' <= c <= 'Z' {
            assert(lowered(s)[k] as int == c as int + 32);
        }
    }
    assert(lowered(lowered(s)) =~= lowered(s));
}

/// What is trimmed off is white space at both ends, and all of it.
pub proof fn trimming_takes_the_white_space_off_both_ends(s: Seq<char>)
    ensures
        exists|a: int, b: int|
            #![trigger s.subrange(a, b)]
            0 <= a <= b <= s.len() && trimmed(s) == s.subrange(a, b) && (forall|i: int|
                0 <= i < a || b <= i < s.len() ==> is_space(#[trigger] s[i])) && (a < b
                ==> !is_space(s[a]) && !is_space(s[b - 1])),
{
    let a = trimmed_start_is_a_rest(s);
    let front = s.skip(a);
    let b = trimmed_end_is_a_beginning(front);
    assert(front.take(b) =~= s.subrange(a, a + b));
    assert forall|i: int| 0 <= i < a || a + b <= i < s.len() implies is_space(
        #[trigger] s[i],
    ) by {
        if i >= a + b {
            assert(front[i - a] == s[i]);
        }
    }
    if b > 0 {
        assert(front[b - 1] == s[a + b - 1]);
        assert(front[0] == s[a]);
    }
    assert(trimmed(s) == s.subrange(a, a + b));
}

proof fn trimmed_start_is_a_rest(s: Seq<char>) -> (a: int)
    ensures
        0 <= a <= s.len(),
        trimmed_start(s) == s.skip(a),
        forall|i: int| 0 <= i < a ==> is_space(#[trigger] s[i]),
        a < s.len() ==> !is_space(s[a]),
    decreases s.len(),
{
    if s.len() > 0 && is_space(s[0]) {
        let rest = s.drop_first();
        let a = trimmed_start_is_a_rest(rest);
        assert(rest.skip(a) =~= s.skip(a + 1));
        assert forall|i: int| 0 <= i < a + 1 implies is_space(#[trigger] s[i]) by {
            if i > 0 {
                assert(rest[i - 1] == s[i]);
            }
        }
        if a + 1 < s.len() {
            assert(rest[a] == s[a + 1]);
        }
        a + 1
    } else {
        assert(s.skip(0) =~= s);
        0
    }
}

proof fn trimmed_end_is_a_beginning(s: Seq<char>) -> (b: int)
    ensures
        0 <= b <= s.len(),
        trimmed_end(s) == s.take(b),
        forall|i: int| b <= i < s.len() ==> is_space(#[trigger] s[i]),
        b > 0 ==> !is_space(s[b - 1]),
    decreases s.len(),
{
    if s.len() > 0 && is_space(s.last()) {
        let front = s.drop_last();
        let b = trimmed_end_is_a_beginning(front);
        assert(front.take(b) =~= s.take(b));
        assert forall|i: int| b <= i < s.len() implies is_space(#[trigger] s[i]) by {
            if i < front.len() {
                assert(front[i] == s[i]);
            }
        }
        b
    } else {
        assert(s.take(s.len() as int) =~= s);
        s.len() as int
    }
}

/// Only line breaks at the end are taken off, and all of them.
pub proof fn only_line_breaks_at_the_end_are_taken_off(s: Seq<char>)
    ensures
        ({
            let r = without_line_breaks(s);
            &&& r.len() <= s.len()
            &&& r == s.take(r.len() as int)
            &&& forall|i: int|
                r.len() <= i < s.len() ==> #[trigger] s[i] == '\n' || s[i] == '\r'
            &&& r.len() > 0 ==> r.last() != '\n' && r.last() != '\r'
        }),
    decreases s.len(),
{
    if s.len() > 0 && (s.last() == '\n' || s.last() == '\r') {
        let front = s.drop_last();
        only_line_breaks_at_the_end_are_taken_off(front);
        let r = without_line_breaks(s);
        assert(front.take(r.len() as int) =~= s.take(r.len() as int));
        assert forall|i: int| r.len() <= i < s.len() implies #[trigger] s[i] == '\n' || s[i]
            == '\r' by {
            if i < front.len() {
                assert(front[i] == s[i]);
            }
        }
    } else {
        assert(s.take(s.len() as int) =~= s);
    }
}

} // verus!
