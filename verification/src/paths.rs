//! File paths as text.
//!
//! A path is its components: the root, if it is absolute, and the names
//! between the separators. Repeated separators, trailing separators and `.`
//! in the middle change nothing; two texts with the same components are the
//! same path.

use vstd::prelude::*;
use vstd::string::*;

use crate::text::{chars_of, comes_before, join, push_text, same, split};

verus! {

/// A field between separators that names something.
pub open spec fn is_name(field: Seq<char>) -> bool {
    field.len() > 0 && field != "."@
}

/// The component that stands for the root or for the current directory at the
/// start of a path.
pub open spec fn lead(path: Seq<char>) -> Seq<Seq<char>> {
    if crate::text::begins_with(path, '/') {
        seq!["/"@]
    } else if crate::text::fields(path, '/')[0] == "."@ {
        seq!["."@]
    } else {
        Seq::empty()
    }
}

/// The names between the separators.
pub open spec fn names(path: Seq<char>) -> Seq<Seq<char>> {
    crate::text::fields(path, '/').filter(|f: Seq<char>| is_name(f))
}

/// The components of a path.
pub open spec fn components(path: Seq<char>) -> Seq<Seq<char>> {
    lead(path) + names(path)
}

/// A path that starts at the root.
pub open spec fn absolute(path: Seq<char>) -> bool {
    crate::text::begins_with(path, '/')
}

/// `path` is `dir` or lies below it.
pub open spec fn within(path: Seq<char>, dir: Seq<char>) -> bool {
    components(dir).is_prefix_of(components(path))
}

/// The name of the file or directory itself: the last component, where that
/// is an ordinary name.
pub open spec fn base_name(path: Seq<char>) -> Option<Seq<char>> {
    let parts = components(path);
    if parts.len() > 0 && ordinary(parts.last()) {
        Some(parts.last())
    } else {
        None
    }
}

/// Neither the root, nor the current directory, nor the parent.
pub open spec fn ordinary(component: Seq<char>) -> bool {
    component != "/"@ && component != "."@ && component != ".."@
}

/// Whether a path starts at the root.
pub fn is_absolute(path: &str) -> (r: bool)
    ensures
        r == absolute(path@),
{
    let chars = chars_of(path);
    chars.len() > 0 && chars[0] == '/'
}

/// The components of a path, in order.
pub fn parts(path: &str) -> (r: Vec<String>)
    ensures
        crate::text::texts(r@) == components(path@),
{
    let all = split(path, '/');
    let ghost pieces = crate::text::fields(path@, '/');
    let ghost keep = |f: Seq<char>| is_name(f);
    let mut out: Vec<String> = Vec::new();
    assert(pieces[0] == all@[0]@);
    if is_absolute(path) {
        out.push("/".to_owned());
    } else if same(all[0].as_str(), ".") {
        out.push(".".to_owned());
    }
    assert(crate::text::texts(out@) =~= lead(path@));
    let mut i: usize = 0;
    assert(pieces.take(0).filter(keep) =~= Seq::<Seq<char>>::empty()) by {
        reveal(Seq::filter);
    }
    while i < all.len()
        invariant
            i <= all@.len(),
            crate::text::texts(all@) == pieces,
            keep == (|f: Seq<char>| is_name(f)),
            crate::text::texts(out@) == lead(path@) + pieces.take(i as int).filter(keep),
        decreases all@.len() - i,
    {
        proof {
            assert(pieces.take(i + 1).drop_last() =~= pieces.take(i as int));
            assert(pieces.take(i + 1).last() == all@[i as int]@);
            reveal(Seq::filter);
        }
        let ghost before = crate::text::texts(out@);
        if all[i].as_str().is_empty() || same(all[i].as_str(), ".") {
            assert(!keep(all@[i as int]@));
        } else {
            assert(keep(all@[i as int]@));
            out.push(all[i].clone());
            assert(crate::text::texts(out@) =~= before.push(all@[i as int]@));
            assert(crate::text::texts(out@) =~= lead(path@) + pieces.take(i + 1).filter(keep));
        }
        i += 1;
    }
    assert(pieces.take(i as int) =~= pieces);
    out
}

/// Whether the components of `front` are the first of those of `whole`.
fn leads(front: &Vec<String>, whole: &Vec<String>) -> (r: bool)
    ensures
        r == crate::text::texts(front@).is_prefix_of(crate::text::texts(whole@)),
{
    let ghost a = crate::text::texts(front@);
    let ghost b = crate::text::texts(whole@);
    if front.len() > whole.len() {
        return false;
    }
    let mut i: usize = 0;
    while i < front.len()
        invariant
            i <= front@.len() <= whole@.len(),
            a == crate::text::texts(front@),
            b == crate::text::texts(whole@),
            forall|k: int| 0 <= k < i ==> a[k] == b[k],
        decreases front@.len() - i,
    {
        if !same(front[i].as_str(), whole[i].as_str()) {
            assert(a[i as int] != b[i as int]);
            assert(b.subrange(0, a.len() as int)[i as int] == b[i as int]);
            return false;
        }
        i += 1;
    }
    assert(a =~= b.subrange(0, a.len() as int));
    true
}

/// Whether `path` is `dir` or lies below it.
pub fn starts_with(path: &str, dir: &str) -> (r: bool)
    ensures
        r == within(path@, dir@),
{
    let whole = parts(path);
    let front = parts(dir);
    leads(&front, &whole)
}

/// The name of the file or directory itself.
pub fn file_name(path: &str) -> (r: Option<String>)
    ensures
        match r {
            Some(name) => base_name(path@) == Some(name@),
            None => base_name(path@) is None,
        },
{
    let mut all = parts(path);
    let ghost texts = crate::text::texts(all@);
    match all.pop() {
        Some(last) => {
            assert(texts.last() == last@);
            if same(last.as_str(), "/") || same(last.as_str(), ".") || same(last.as_str(), "..") {
                None
            } else {
                Some(last)
            }
        },
        None => None,
    }
}

/// The path of the first components.
pub open spec fn front_path(parts: Seq<Seq<char>>, n: int) -> Seq<char> {
    if n > 0 && parts[0] == "/"@ {
        "/"@ + crate::text::joined(parts.take(n).drop_first(), '/')
    } else {
        crate::text::joined(parts.take(n), '/')
    }
}

/// The path of the first `n` of the components.
pub fn front_text(all: &Vec<String>, n: usize) -> (r: String)
    requires
        n <= all@.len(),
    ensures
        r@ == front_path(crate::text::texts(all@), n as int),
{
    let ghost texts = crate::text::texts(all@);
    let mut front: Vec<String> = Vec::new();
    let mut i: usize = 0;
    let rooted: bool = n > 0 && same(all[0].as_str(), "/");
    proof {
        if n > 0 {
            assert(texts[0] == all@[0]@);
        }
    }
    if rooted {
        i = 1;
    }
    let ghost start = i as int;
    while i < n
        invariant
            0 <= start <= i <= n <= all@.len(),
            texts == crate::text::texts(all@),
            crate::text::texts(front@) =~= texts.subrange(start, i as int),
        decreases n - i,
    {
        push_text(&mut front, all[i].as_str());
        assert(texts.subrange(start, i + 1) =~= texts.subrange(start, i as int).push(
            all@[i as int]@,
        ));
        i += 1;
    }
    let rest = join(front.as_slice(), '/');
    if rooted {
        assert(texts.subrange(1, n as int) =~= texts.take(n as int).drop_first());
        let mut out = "/".to_owned();
        out.append(rest.as_str());
        out
    } else {
        assert(texts.subrange(0, n as int) =~= texts.take(n as int));
        rest
    }
}

/// A path and the directories above it, innermost first.
pub open spec fn above(path: Seq<char>) -> Seq<Seq<char>> {
    let parts = components(path);
    Seq::new(
        (parts.len() + if absolute(path) {
            0nat
        } else {
            1nat
        }) as nat,
        |i: int|
            if i == 0 {
                path
            } else {
                front_path(parts, parts.len() - i)
            },
    )
}

/// A path and the directories above it, innermost first.
pub fn ancestors(path: &str) -> (r: Vec<String>)
    requires
        path@.len() > 0,
    ensures
        crate::text::texts(r@) == above(path@),
        r@.len() > 0,
{
    let all = parts(path);
    let ghost texts = components(path@);
    let rooted: bool = is_absolute(path);
    let mut out: Vec<String> = Vec::new();
    let len: usize = all.len();
    assert(texts.len() == all@.len());
    proof {
        if rooted {
            assert(texts[0] == "/"@);
        }
    }
    out.push(path.to_owned());
    let mut n: usize = len;
    assert(crate::text::texts(out@) =~= seq![path@]);
    while n > 1 || (n == 1 && !rooted)
        invariant
            n <= len == all@.len(),
            rooted == absolute(path@),
            rooted ==> n > 0 && texts[0] == "/"@,
            crate::text::texts(all@) == texts,
            texts == components(path@),
            out@.len() == len - n + 1,
            forall|i: int|
                0 <= i < out@.len() ==> (#[trigger] out@[i])@ == if i == 0 {
                    path@
                } else {
                    front_path(texts, texts.len() - i)
                },
        decreases n,
    {
        n -= 1;
        let text = front_text(&all, n);
        out.push(text);
    }
    assert(crate::text::texts(out@) =~= above(path@));
    out
}

/// The directory that a path lies in; the current one where it names none.
pub open spec fn directory(path: Seq<char>) -> Seq<char> {
    let parts = components(path);
    if parts.len() <= 1 {
        "."@
    } else {
        front_path(parts, parts.len() - 1)
    }
}

/// The directory that a path lies in.
pub fn directory_of(path: &str) -> (r: String)
    ensures
        r@ == directory(path@),
{
    let all = parts(path);
    assert(crate::text::texts(all@).len() == all@.len());
    if all.len() <= 1 {
        ".".to_owned()
    } else {
        front_text(&all, all.len() - 1)
    }
}

/// Whether two texts are the same path.
pub fn same_path(a: &str, b: &str) -> (r: bool)
    ensures
        r == (components(a@) == components(b@)),
{
    let left = parts(a);
    let right = parts(b);
    assert(crate::text::texts(left@).len() == left@.len());
    assert(crate::text::texts(right@).len() == right@.len());
    if left.len() != right.len() {
        return false;
    }
    let r: bool = leads(&left, &right);
    proof {
        let x = components(a@);
        let y = components(b@);
        if r {
            assert(x =~= y);
        } else {
            assert(x == y ==> x.is_prefix_of(y));
        }
    }
    r
}

/// Where special components stand among the others: the root first, then the
/// current directory, the parent, and the ordinary names.
pub open spec fn component_rank(component: Seq<char>) -> int {
    if component == "/"@ {
        0
    } else if component == "."@ {
        1
    } else if component == ".."@ {
        2
    } else {
        3
    }
}

/// The order of components.
pub open spec fn component_before(a: Seq<char>, b: Seq<char>) -> bool {
    component_rank(a) < component_rank(b) || (component_rank(a) == component_rank(b)
        && crate::text::precedes(a, b))
}

/// The order of component lists: by the first component in which they differ,
/// a proper beginning first.
pub open spec fn components_before(a: Seq<Seq<char>>, b: Seq<Seq<char>>) -> bool
    decreases a.len(),
{
    if b.len() == 0 {
        false
    } else if a.len() == 0 {
        true
    } else if a[0] != b[0] {
        component_before(a[0], b[0])
    } else {
        components_before(a.drop_first(), b.drop_first())
    }
}

/// `a` comes strictly before `b` in the order of paths.
pub open spec fn path_before(a: Seq<char>, b: Seq<char>) -> bool {
    components_before(components(a), components(b))
}

fn rank_of(component: &str) -> (r: u8)
    ensures
        r == component_rank(component@),
{
    if same(component, "/") {
        0
    } else if same(component, ".") {
        1
    } else if same(component, "..") {
        2
    } else {
        3
    }
}

/// Whether `a` comes strictly before `b` in the order of paths.
pub fn sorts_before(a: &str, b: &str) -> (r: bool)
    ensures
        r == path_before(a@, b@),
{
    let left = parts(a);
    let right = parts(b);
    let ghost x = components(a@);
    let ghost y = components(b@);
    let mut i: usize = 0;
    assert(x.skip(0) =~= x && y.skip(0) =~= y);
    while i < left.len() && i < right.len()
        invariant
            crate::text::texts(left@) == x,
            crate::text::texts(right@) == y,
            i <= left@.len(),
            i <= right@.len(),
            components_before(x, y) == components_before(x.skip(i as int), y.skip(i as int)),
            x == components(a@),
            y == components(b@),
        decreases left@.len() - i,
    {
        let ghost xs = x.skip(i as int);
        let ghost ys = y.skip(i as int);
        assert(xs[0] == left@[i as int]@ && ys[0] == right@[i as int]@);
        if !same(left[i].as_str(), right[i].as_str()) {
            let p: u8 = rank_of(left[i].as_str());
            let q: u8 = rank_of(right[i].as_str());
            return p < q || (p == q && comes_before(left[i].as_str(), right[i].as_str()));
        }
        proof {
            assert(xs.drop_first() =~= x.skip(i + 1));
            assert(ys.drop_first() =~= y.skip(i + 1));
        }
        i += 1;
    }
    left.len() < right.len()
}

/// The order of components is strict, transitive and total.
proof fn components_are_ordered(a: Seq<char>, b: Seq<char>, c: Seq<char>)
    ensures
        !component_before(a, a),
        component_before(a, b) && component_before(b, c) ==> component_before(a, c),
        a == b || component_before(a, b) || component_before(b, a),
{
    crate::text::precedes_irreflexive(a);
    crate::text::precedes_total(a, b);
    if crate::text::precedes(a, b) && crate::text::precedes(b, c) {
        crate::text::precedes_transitive(a, b, c);
    }
}

proof fn before_is_transitive(a: Seq<Seq<char>>, b: Seq<Seq<char>>, c: Seq<Seq<char>>)
    requires
        components_before(a, b),
        components_before(b, c),
    ensures
        components_before(a, c),
    decreases a.len(),
{
    if a.len() > 0 {
        components_are_ordered(a[0], b[0], c[0]);
        components_are_ordered(a[0], b[0], a[0]);
        if a[0] == b[0] && b[0] == c[0] {
            before_is_transitive(a.drop_first(), b.drop_first(), c.drop_first());
        }
    }
}

proof fn before_is_strict(a: Seq<Seq<char>>)
    ensures
        !components_before(a, a),
    decreases a.len(),
{
    if a.len() > 0 {
        before_is_strict(a.drop_first());
    }
}

proof fn before_is_total(a: Seq<Seq<char>>, b: Seq<Seq<char>>)
    ensures
        a == b || components_before(a, b) || components_before(b, a),
    decreases a.len(),
{
    if a.len() > 0 && b.len() > 0 {
        components_are_ordered(a[0], b[0], a[0]);
        if a[0] == b[0] {
            before_is_total(a.drop_first(), b.drop_first());
            if a.drop_first() == b.drop_first() {
                assert(a =~= seq![a[0]] + a.drop_first());
                assert(b =~= seq![b[0]] + b.drop_first());
            }
        }
    } else if a.len() == 0 && b.len() == 0 {
        assert(a =~= b);
    }
}

/// The order of paths is strict and transitive, and any two texts that are not
/// the same path are ordered one way or the other.
pub proof fn paths_are_ordered(a: Seq<char>, b: Seq<char>, c: Seq<char>)
    ensures
        !path_before(a, a),
        path_before(a, b) && path_before(b, c) ==> path_before(a, c),
        components(a) == components(b) || path_before(a, b) || path_before(b, a),
{
    before_is_strict(components(a));
    before_is_total(components(a), components(b));
    if path_before(a, b) && path_before(b, c) {
        before_is_transitive(components(a), components(b), components(c));
    }
}

/// A path lies within a directory just when its components begin with all of the
/// directory's, whole component by whole component: a path lies within itself, and a
/// directory whose components differ in one place, or are more, does not hold it.
pub proof fn what_lies_within_a_directory(path: Seq<char>, dir: Seq<char>)
    ensures
        within(path, path),
        within(path, dir) <==> components(dir).len() <= components(path).len() && forall|i: int|
            0 <= i < components(dir).len() ==> (#[trigger] components(dir)[i]) == components(path)[i],
        within(path, dir) && within(dir, path) ==> components(path) == components(dir),
{
    let front = components(dir);
    let whole = components(path);
    if front.len() <= whole.len() && forall|i: int|
        0 <= i < front.len() ==> (#[trigger] front[i]) == whole[i] {
        assert(front =~= whole.subrange(0, front.len() as int));
    }
    if within(path, dir) {
        assert forall|i: int| 0 <= i < front.len() implies (#[trigger] front[i]) == whole[i] by {
            assert(whole.subrange(0, front.len() as int)[i] == whole[i]);
        }
        if within(dir, path) {
            assert(front =~= whole);
        }
    }
    assert(whole =~= whole.subrange(0, whole.len() as int));
}

/// What lies within a directory lies within all that the directory lies within.
pub proof fn what_lies_within_lies_within_all_above(path: Seq<char>, dir: Seq<char>, above: Seq<char>)
    requires
        within(path, dir),
        within(dir, above),
    ensures
        within(path, above),
{
    what_lies_within_a_directory(path, dir);
    what_lies_within_a_directory(dir, above);
    what_lies_within_a_directory(path, above);
    assert forall|i: int| 0 <= i < components(above).len() implies (#[trigger] components(above)[i])
        == components(path)[i] by {
        assert(components(dir)[i] == components(path)[i]);
    }
}

/// A path has a file name unless it ends at the root, the current directory or the
/// parent, or is empty; the name is then the last component.
pub proof fn what_a_file_name_is(path: Seq<char>)
    ensures
        base_name(path) is None <==> components(path).len() == 0 || components(path).last() == "/"@
            || components(path).last() == "."@ || components(path).last() == ".."@,
        base_name(path) is Some ==> base_name(path) == Some(components(path).last()),
{
}

/// A component is the root, which only leads an absolute path, or the current
/// directory, which only leads a relative one, or a name that is neither empty nor
/// holds a separator.
pub proof fn what_the_components_of_a_path_are(path: Seq<char>)
    ensures
        absolute(path) <==> path.len() > 0 && path[0] == '/',
        absolute(path) <==> components(path).len() > 0 && components(path)[0] == "/"@,
        forall|i: int|
            0 < i < components(path).len() ==> (#[trigger] components(path)[i]).len() > 0
                && components(path)[i] != "."@ && !components(path)[i].contains('/'),
{
    names_are_plain(path);
    reveal_strlit("/");
    reveal_strlit(".");
    let first = lead(path);
    let rest = names(path);
    let parts = components(path);
    assert(first.len() <= 1);
    assert("/"@[0] == '/' && "."@[0] == '.');
    if !absolute(path) && parts.len() > 0 && parts[0] == "/"@ {
        if first.len() == 0 {
            assert(parts[0] == rest[0]);
            assert("/"@.contains("/"@[0]));
        }
    }
    assert forall|i: int| 0 < i < parts.len() implies (#[trigger] parts[i]).len() > 0 && parts[i]
        != "."@ && !parts[i].contains('/') by {
        assert(parts[i] == rest[i - first.len()]);
    }
}

/// Among components the root comes first, then the current directory, then the
/// parent; two ordinary names stand in the order of their texts.
pub proof fn special_components_come_first(a: Seq<char>, b: Seq<char>)
    ensures
        a == "/"@ && b != "/"@ ==> component_before(a, b),
        a == "."@ && b != "/"@ && b != "."@ ==> component_before(a, b),
        a == ".."@ && b != "/"@ && b != "."@ && b != ".."@ ==> component_before(a, b),
        a != "/"@ && a != "."@ && a != ".."@ && b != "/"@ && b != "."@ && b != ".."@
            ==> component_before(a, b) == crate::text::precedes(a, b),
{
    reveal_strlit("/");
    reveal_strlit(".");
    reveal_strlit("..");
    assert("/"@[0] == '/' && "."@[0] == '.' && ".."@.len() == 2);
}

/// The list of what stands above a path begins with the path, and each further entry
/// has one component less; it ends at the root or, for a relative path, with the
/// empty text.
pub proof fn what_stands_above_a_path(path: Seq<char>)
    ensures
        absolute(path) ==> above(path).len() == components(path).len(),
        !absolute(path) ==> above(path).len() == components(path).len() + 1 && (components(path).len()
            > 0 ==> above(path).last().len() == 0),
        above(path).len() > 0 && above(path)[0] == path,
        forall|i: int|
            0 < i < components(path).len() ==> components(#[trigger] above(path)[i]) == components(
                path,
            ).take(components(path).len() - i),
{
    let parts = components(path);
    assert forall|i: int| 0 < i < parts.len() implies components(#[trigger] above(path)[i])
        == parts.take(parts.len() - i) by {
        the_front_of_a_path_keeps_its_components(path, parts.len() - i);
    }
    if !absolute(path) && parts.len() > 0 {
        assert(above(path).last() == front_path(parts, 0));
        assert(parts.take(0).len() == 0);
    }
}

/// What the first components of a path are written as has just these components.
pub proof fn the_front_of_a_path_keeps_its_components(path: Seq<char>, n: int)
    requires
        0 < n <= components(path).len(),
    ensures
        components(front_path(components(path), n)) == components(path).take(n),
{
    if lead(path).len() > 0 && lead(path)[0] == "/"@ {
        the_front_of_an_absolute_path(path, n);
    } else {
        the_front_of_a_relative_path(path, n);
    }
}

proof fn the_front_of_an_absolute_path(path: Seq<char>, n: int)
    requires
        0 < n <= components(path).len(),
        lead(path).len() > 0 && lead(path)[0] == "/"@,
    ensures
        components(front_path(components(path), n)) == components(path).take(n),
{
    let rest = names(path);
    let kept = rest.take(n - 1);
    assert(lead(path).len() == 1);
    let parts = components(path);
    assert(parts.take(n).drop_first() =~= kept);
    assert(parts[0] == "/"@);
    assert(forall|i: int|
        0 <= i < kept.len() ==> is_name(#[trigger] kept[i]) && !kept[i].contains('/')) by {
        names_are_plain(path);
        plain_front(rest, n - 1);
    }
    names_below_the_root(kept);
    assert(parts.take(n) =~= seq!["/"@] + kept);
}

/// Names written below the root are read back as the root and these names.
proof fn names_below_the_root(kept: Seq<Seq<char>>)
    requires
        forall|i: int| 0 <= i < kept.len() ==> is_name(#[trigger] kept[i]) && !kept[i].contains('/'),
    ensures
        components("/"@ + crate::text::joined(kept, '/')) == seq!["/"@] + kept,
{
    let tail = crate::text::joined(kept, '/');
    let text = "/"@ + tail;
    let empty = Seq::<char>::empty();
    let none = seq![empty];
    assert(lead(text) == seq!["/"@]) by {
        reveal_strlit("/");
        assert(text[0] == '/');
    }
    assert(crate::text::fields(text, '/') == none + crate::text::fields(tail, '/')) by {
        reveal_strlit("/");
        assert(text =~= empty + seq!['/'] + tail);
        crate::text::fields_of_pair(empty, '/', tail);
        crate::text::fields_of_plain(empty, '/');
    }
    assert(names(text) == kept) by {
        nothing_is_no_name();
        if kept.len() == 0 {
            crate::text::fields_of_plain(tail, '/');
            assert(none + crate::text::fields(tail, '/') =~= none + none + kept);
            kept_of_names(none + none, kept);
        } else {
            crate::text::fields_of_joined(kept, '/');
            kept_of_names(none, kept);
        }
    }
}

proof fn the_front_of_a_relative_path(path: Seq<char>, n: int)
    requires
        0 < n <= components(path).len(),
        !(lead(path).len() > 0 && lead(path)[0] == "/"@),
    ensures
        components(front_path(components(path), n)) == components(path).take(n),
{
    let parts = components(path);
    let first = lead(path);
    let rest = names(path);
    names_are_plain(path);
    reveal_strlit("/");
    reveal_strlit(".");
    let k = n - first.len();
    let kept = rest.take(k);
    let shown = parts.take(n);
    assert(parts[0] != "/"@) by {
        if first.len() == 0 {
            assert(rest[0] == parts[0]);
            assert(!rest[0].contains('/'));
            assert("/"@[0] == '/');
        }
    }
    assert forall|i: int| 0 <= i < shown.len() implies !(#[trigger] shown[i]).contains('/') by {
        if i < first.len() {
            assert(shown[i] == "."@);
            assert("."@[0] == '.');
        } else {
            assert(shown[i] == rest[i - first.len()]);
        }
    }
    let text = front_path(parts, n);
    assert(text == crate::text::joined(shown, '/'));
    crate::text::fields_of_joined(shown, '/');
    if crate::text::begins_with(text, '/') {
        crate::text::joined_fields(text, '/');
        first_field_of(text);
        assert(shown[0].len() == 0);
        if first.len() == 0 {
            assert(shown[0] == rest[0]);
            assert(is_name(rest[0]));
        }
    }
    if first.len() > 0 {
        assert(shown =~= seq!["."@] + kept);
        kept_of_names(seq!["."@], kept);
    } else {
        assert(shown =~= Seq::<Seq<char>>::empty() + kept);
        kept_of_names(Seq::<Seq<char>>::empty(), kept);
        assert(shown[0] == rest[0]);
        assert(is_name(rest[0]));
    }
    assert(components(text) =~= parts.take(n));
}

proof fn nothing_is_no_name()
    ensures
        !is_name(Seq::<char>::empty()),
{
}

proof fn names_are_plain(path: Seq<char>)
    ensures
        forall|i: int|
            0 <= i < names(path).len() ==> is_name(#[trigger] names(path)[i]) && !names(
                path,
            )[i].contains('/'),
{
    let all = crate::text::fields(path, '/');
    let keep = |f: Seq<char>| is_name(f);
    crate::sorting::what_is_kept_of_a_list(all, keep);
    crate::text::fields_hold_no_separator(path, '/');
    assert forall|i: int| 0 <= i < names(path).len() implies is_name(#[trigger] names(path)[i])
        && !names(path)[i].contains('/') by {
        assert(names(path) == all.filter(keep));
        assert(keep(all.filter(keep)[i]));
        assert(all.contains(all.filter(keep)[i]));
    }
}

proof fn plain_front(rest: Seq<Seq<char>>, k: int)
    requires
        0 <= k <= rest.len(),
        forall|i: int|
            0 <= i < rest.len() ==> is_name(#[trigger] rest[i]) && !rest[i].contains('/'),
    ensures
        forall|i: int|
            0 <= i < k ==> is_name(#[trigger] rest.take(k)[i]) && !rest.take(k)[i].contains('/'),
{
    assert forall|i: int| 0 <= i < k implies is_name(#[trigger] rest.take(k)[i]) && !rest.take(
        k,
    )[i].contains('/') by {
        assert(rest.take(k)[i] == rest[i]);
    }
}

proof fn kept_of_names(before: Seq<Seq<char>>, kept: Seq<Seq<char>>)
    requires
        forall|i: int| 0 <= i < before.len() ==> !is_name(#[trigger] before[i]),
        forall|i: int| 0 <= i < kept.len() ==> is_name(#[trigger] kept[i]),
    ensures
        (before + kept).filter(|f: Seq<char>| is_name(f)) == kept,
{
    let keep = |f: Seq<char>| is_name(f);
    let all = before + kept;
    let n = before.len() as int;
    assert forall|i: int| 0 <= i < n implies !keep(#[trigger] all[i]) by {
        assert(all[i] == before[i]);
    }
    assert forall|i: int| n <= i < all.len() implies keep(#[trigger] all[i]) by {
        assert(all[i] == kept[i - n]);
    }
    crate::sorting::all_are_kept(all, n, keep);
    assert(all.skip(n) =~= kept);
}

proof fn first_field_of(s: Seq<char>)
    requires
        s.len() > 0,
        s[0] == '/',
    ensures
        crate::text::fields(s, '/')[0].len() == 0,
{
    let rest = s.skip(1);
    assert(s =~= Seq::<char>::empty() + seq!['/'] + rest);
    crate::text::fields_of_pair(Seq::<char>::empty(), '/', rest);
    crate::text::fields_of_plain(Seq::<char>::empty(), '/');
}

/// The directory of a path has its components without the last, and the path lies
/// in it; a path of one component lies in the current directory.
pub proof fn a_path_lies_in_its_directory(path: Seq<char>)
    ensures
        components(path).len() > 1 ==> components(directory(path)) == components(path).drop_last()
            && within(path, directory(path)),
        components(path).len() <= 1 ==> directory(path) == "."@,
{
    let parts = components(path);
    if parts.len() > 1 {
        the_front_of_a_path_keeps_its_components(path, parts.len() - 1);
        assert(parts.take(parts.len() - 1) =~= parts.drop_last());
    }
}

} // verus!
