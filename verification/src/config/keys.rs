//! The dotted keys of the configuration, and where they lead.

use vstd::prelude::*;
use vstd::string::*;

use crate::text::{chars_of, split};

verus! {

/// One segment of a dotted key: a name, or the index of a row.
#[derive(Debug, PartialEq, Eq)]
pub enum Segment {
    Name(String),
    Index(usize),
}

/// What a segment says.
pub enum Step {
    Name(Seq<char>),
    Index(usize),
}

impl Segment {
    pub open spec fn step(self) -> Step {
        match self {
            Segment::Name(name) => Step::Name(name@),
            Segment::Index(index) => Step::Index(index),
        }
    }
}

/// The text without a plus sign at its start.
pub open spec fn unsigned(text: Seq<char>) -> Seq<char> {
    if text.len() > 0 && text[0] == '+' {
        text.drop_first()
    } else {
        text
    }
}

/// There is nothing in it but digits, at least one.
pub open spec fn is_digits(text: Seq<char>) -> bool {
    text.len() > 0 && forall|i: int| 0 <= i < text.len() ==> '0' <= #[trigger] text[i] <= '9'
}

/// The text is a number, with or without a plus sign, that an index can be.
pub open spec fn is_index(text: Seq<char>) -> bool {
    is_digits(unsigned(text)) && value_of(unsigned(text)) <= usize::MAX
}

/// What decimal digits say.
pub open spec fn value_of(digits: Seq<char>) -> int
    decreases digits.len(),
{
    if digits.len() == 0 {
        0
    } else {
        10 * value_of(digits.drop_last()) + (digits.last() as int - '0' as int)
    }
}

/// What a part of a key says.
pub open spec fn step_of(text: Seq<char>) -> Step {
    if is_index(text) {
        Step::Index(value_of(unsigned(text)) as usize)
    } else {
        Step::Name(text)
    }
}

/// The parts of a key.
pub open spec fn steps(key: Seq<char>) -> Seq<Step> {
    crate::text::fields(key, '.').map_values(|text: Seq<char>| step_of(text))
}

/// What segments say.
pub open spec fn shown(segments: Seq<Segment>) -> Seq<Step> {
    segments.map_values(|segment: Segment| segment.step())
}

proof fn value_grows(digits: Seq<char>, n: int)
    requires
        0 <= n <= digits.len(),
        forall|i: int| 0 <= i < digits.len() ==> '0' <= #[trigger] digits[i] <= '9',
    ensures
        0 <= value_of(digits.take(n)) <= value_of(digits),
    decreases digits.len(),
{
    if n < digits.len() {
        assert forall|i: int| 0 <= i < digits.drop_last().len() implies '0'
            <= #[trigger] digits.drop_last()[i] <= '9' by {
            assert(digits[i] == digits.drop_last()[i]);
        }
        value_grows(digits.drop_last(), n);
        assert(digits.drop_last().take(n) =~= digits.take(n));
        assert('0' <= digits[digits.len() - 1] <= '9');
    } else {
        assert(digits.take(n) =~= digits);
        if digits.len() > 0 {
            assert forall|i: int| 0 <= i < digits.drop_last().len() implies '0'
                <= #[trigger] digits.drop_last()[i] <= '9' by {
                assert(digits[i] == digits.drop_last()[i]);
            }
            value_grows(digits.drop_last(), digits.len() - 1);
            assert('0' <= digits[digits.len() - 1] <= '9');
        }
    }
}

fn read_index(text: &str) -> (r: Option<usize>)
    ensures
        match r {
            Some(n) => is_index(text@) && n == value_of(unsigned(text@)),
            None => !is_index(text@),
        },
{
    let chars = chars_of(text);
    let start: usize = if chars.len() > 0 && chars[0] == '+' {
        1
    } else {
        0
    };
    let ghost digits = unsigned(text@);
    assert(digits =~= text@.skip(start as int));
    if start == chars.len() {
        return None;
    }
    let mut total: usize = 0;
    let mut i: usize = start;
    while i < chars.len()
        invariant
            start <= i <= chars@.len(),
            chars@ == text@,
            digits == text@.skip(start as int),
            digits == unsigned(text@),
            total == value_of(digits.take(i - start)),
            forall|k: int| 0 <= k < i - start ==> '0' <= #[trigger] digits[k] <= '9',
        decreases chars@.len() - i,
    {
        let c = chars[i];
        let ghost k = i - start;
        assert(c == digits[k]);
        assert(digits.take(k + 1).drop_last() =~= digits.take(k));
        if !('0' <= c && c <= '9') {
            assert(!is_digits(digits));
            return None;
        }
        let digit: usize = (c as u32 - '0' as u32) as usize;
        let next: Option<usize> = match total.checked_mul(10) {
            Some(tens) => tens.checked_add(digit),
            None => None,
        };
        match next {
            Some(sum) => {
                total = sum;
            },
            None => {
                proof {
                    if is_digits(digits) {
                        value_grows(digits, k + 1);
                    }
                }
                return None;
            },
        }
        i += 1;
    }
    assert(digits.take(i - start) =~= digits);
    Some(total)
}

/// The parts of a key, told apart.
pub fn segments(key: &str) -> (r: Vec<Segment>)
    ensures
        shown(r@) == steps(key@),
{
    let pieces = split(key, '.');
    let ghost texts = crate::text::fields(key@, '.');
    assert(crate::text::texts(pieces@) == texts);
    let mut out: Vec<Segment> = Vec::new();
    let mut i: usize = 0;
    while i < pieces.len()
        invariant
            i <= pieces@.len() == texts.len(),
            crate::text::texts(pieces@) == texts,
            out@.len() == i,
            forall|k: int| 0 <= k < i ==> (#[trigger] out@[k]).step() == step_of(texts[k]),
        decreases pieces@.len() - i,
    {
        assert(texts[i as int] == pieces@[i as int]@);
        let segment = match read_index(pieces[i].as_str()) {
            Some(n) => Segment::Index(n),
            None => Segment::Name(pieces[i].clone()),
        };
        out.push(segment);
        i += 1;
    }
    assert(shown(out@) =~= steps(key@));
    out
}

/// One level on the way to a key: a table, or a row of a repeated section.
#[derive(Debug, PartialEq, Eq)]
pub struct Level {
    pub name: String,
    pub row: Option<usize>,
}

/// Where a key leads: through the levels to a field.
#[derive(Debug, PartialEq, Eq)]
pub struct Route {
    pub levels: Vec<Level>,
    pub field: String,
}

/// The levels that the first segments lead through, from the given one on. A
/// name followed by an index is a row; an index without a name leads nowhere.
pub open spec fn levels_of(path: Seq<Step>, from: int) -> Option<Seq<(Seq<char>, Option<usize>)>>
    decreases path.len() - from,
{
    if from >= path.len() {
        Some(Seq::empty())
    } else {
        match path[from] {
            Step::Index(_) => None,
            Step::Name(name) => {
                let row = if from + 1 < path.len() {
                    match path[from + 1] {
                        Step::Index(n) => Some(n),
                        Step::Name(_) => None,
                    }
                } else {
                    None
                };
                let next = if row is Some {
                    from + 2
                } else {
                    from + 1
                };
                match levels_of(path, next) {
                    Some(rest) => Some(seq![(name, row)] + rest),
                    None => None,
                }
            },
        }
    }
}

/// What levels say.
pub open spec fn shown_levels(levels: Seq<Level>) -> Seq<(Seq<char>, Option<usize>)> {
    levels.map_values(|level: Level| (level.name@, level.row))
}

/// Where steps lead: the last one must be a name, and the ones before it
/// must lead somewhere.
pub open spec fn leads_to(steps: Seq<Step>) -> Option<
    (Seq<(Seq<char>, Option<usize>)>, Seq<char>),
> {
    if steps.len() == 0 {
        None
    } else {
        match (steps.last(), levels_of(steps.drop_last(), 0)) {
            (Step::Name(field), Some(levels)) => Some((levels, field)),
            _ => None,
        }
    }
}

/// Where a key leads.
pub open spec fn key_leads_to(key: Seq<char>) -> Option<
    (Seq<(Seq<char>, Option<usize>)>, Seq<char>),
> {
    leads_to(steps(key))
}

/// Where segments lead.
pub fn route(segments: Vec<Segment>) -> (r: Option<Route>)
    ensures
        match r {
            Some(route) => leads_to(shown(segments@)) == Some((shown_levels(route.levels@), route.field@)),
            None => leads_to(shown(segments@)) is None,
        },
{
    let ghost all = shown(segments@);
    let mut rest = segments;
    let field = match rest.pop() {
        Some(Segment::Name(name)) => name,
        _ => return None,
    };
    let ghost path = shown(rest@);
    assert(path =~= all.drop_last());
    let mut levels: Vec<Level> = Vec::new();
    let mut i: usize = 0;
    proof {
        if levels_of(path, 0) is Some {
            assert(levels_of(path, 0)->0 =~= shown_levels(levels@) + levels_of(path, 0)->0);
        }
    }
    while i < rest.len()
        invariant
            i <= rest@.len(),
            path == shown(rest@),
            path == all.drop_last(),
            all == shown(segments@),
            all.len() > 0,
            all.last() == Step::Name(field@),
            levels_of(path, i as int) is None ==> levels_of(path, 0) is None,
            levels_of(path, i as int) is Some ==> levels_of(path, 0) == Some(
                shown_levels(levels@) + levels_of(path, i as int)->0,
            ),
        decreases rest@.len() - i,
    {
        let ghost from = i as int;
        let ghost before = levels@;
        assert(path[from] == rest@[from].step());
        let name = match &rest[i] {
            Segment::Name(name) => name.clone(),
            Segment::Index(_) => {
                assert(levels_of(path, from) is None);
                return None;
            },
        };
        let row: Option<usize> = if i + 1 < rest.len() {
            match &rest[i + 1] {
                Segment::Index(n) => Some(*n),
                Segment::Name(_) => None,
            }
        } else {
            None
        };
        i = if row.is_some() {
            i + 2
        } else {
            i + 1
        };
        let ghost added = (name@, row);
        levels.push(Level { name, row });
        proof {
            if levels_of(path, i as int) is Some {
                let tail = levels_of(path, i as int)->0;
                assert(levels_of(path, from) == Some(seq![added] + tail));
                assert(shown_levels(levels@) =~= shown_levels(before).push(added));
                assert(shown_levels(before) + (seq![added] + tail) =~= shown_levels(levels@) + tail);
            }
        }
    }
    proof {
        assert(levels_of(path, i as int) == Some(Seq::<(Seq<char>, Option<usize>)>::empty()));
        assert(shown_levels(levels@) + Seq::empty() =~= shown_levels(levels@));
    }
    Some(Route { levels, field })
}

/// A number that was written as such is read back as that index, with a plus sign
/// or without; a text that is no number is a name.
pub proof fn a_number_in_a_key_is_an_index(n: usize, text: Seq<char>)
    ensures
        step_of(crate::text::decimal(n as nat)) == Step::Index(n),
        step_of(seq!['+'] + crate::text::decimal(n as nat)) == Step::Index(n),
        (exists|i: int|
            0 <= i < text.len() && !('0' <= #[trigger] text[i] <= '9') && text[i] != '+')
            ==> step_of(text) == Step::Name(text),
        text.len() == 0 ==> step_of(text) == Step::Name(text),
{
    let digits = crate::text::decimal(n as nat);
    crate::text::decimal_is_digits(n as nat);
    decimal_is_worth_its_number(n as nat);
    assert('0' <= digits[0] <= '9');
    assert(unsigned(digits) == digits);
    let signed = seq!['+'] + digits;
    assert(signed.drop_first() =~= digits);
    if exists|i: int|
        0 <= i < text.len() && !('0' <= #[trigger] text[i] <= '9') && text[i] != '+' {
        let i = choose|i: int|
            0 <= i < text.len() && !('0' <= #[trigger] text[i] <= '9') && text[i] != '+';
        if text[0] == '+' {
            assert(unsigned(text)[i - 1] == text[i]);
        } else {
            assert(unsigned(text)[i] == text[i]);
        }
        assert(!is_digits(unsigned(text)));
    }
}

proof fn decimal_is_worth_its_number(n: nat)
    ensures
        value_of(crate::text::decimal(n)) == n,
    decreases n,
{
    let digits = crate::text::decimal(n);
    if n < 10 {
        assert(digits.drop_last() =~= Seq::<char>::empty());
        assert(value_of(digits.drop_last()) == 0);
    } else {
        decimal_is_worth_its_number(n / 10);
        assert(digits.drop_last() =~= crate::text::decimal(n / 10));
    }
}

/// A key leads through its names to the last of them; an index picks a row of the
/// name before it, so that a key that begins or ends with one leads nowhere.
pub proof fn where_a_key_leads(
    section: Seq<char>,
    field: Seq<char>,
    inner: Seq<char>,
    n: usize,
    m: usize,
)
    ensures
        leads_to(seq![Step::Name(field)]) == Some(
            (Seq::<(Seq<char>, Option<usize>)>::empty(), field),
        ),
        leads_to(seq![Step::Name(section), Step::Name(field)]) == Some(
            (seq![(section, None::<usize>)], field),
        ),
        leads_to(seq![Step::Name(section), Step::Index(n), Step::Name(field)]) == Some(
            (seq![(section, Some(n))], field),
        ),
        leads_to(seq![Step::Index(n), Step::Name(field)]) is None,
        leads_to(seq![Step::Name(section), Step::Index(n)]) is None,
        leads_to(
            seq![
                Step::Name(section),
                Step::Index(n),
                Step::Name(inner),
                Step::Index(m),
                Step::Name(field),
            ],
        ) == Some((seq![(section, Some(n)), (inner, Some(m))], field)),
{
    reveal_with_fuel(levels_of, 4);
    let a = seq![Step::Name(field)];
    assert(levels_of(a.drop_last(), 0) == Some(Seq::<(Seq<char>, Option<usize>)>::empty()));
    let b = seq![Step::Name(section), Step::Name(field)];
    let b1 = b.drop_last();
    assert(b1.len() == 1 && b1[0] == Step::Name(section));
    assert(levels_of(b1, 0)->0 =~= seq![(section, None::<usize>)]);
    let c = seq![Step::Name(section), Step::Index(n), Step::Name(field)];
    let c1 = c.drop_last();
    assert(c1.len() == 2 && c1[0] == Step::Name(section) && c1[1] == Step::Index(n));
    assert(levels_of(c1, 0)->0 =~= seq![(section, Some(n))]);
    let d = seq![Step::Index(n), Step::Name(field)];
    assert(d.drop_last()[0] == Step::Index(n));
    let e = seq![
        Step::Name(section),
        Step::Index(n),
        Step::Name(inner),
        Step::Index(m),
        Step::Name(field),
    ];
    let e1 = e.drop_last();
    assert(e1.len() == 4 && e1[0] == Step::Name(section) && e1[1] == Step::Index(n) && e1[2]
        == Step::Name(inner) && e1[3] == Step::Index(m));
    assert(levels_of(e1, 0)->0 =~= seq![(section, Some(n)), (inner, Some(m))]);
}

} // verus!
