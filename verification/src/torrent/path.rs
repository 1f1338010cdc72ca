//! The path-traversal boundary.
//!
//! Torrent files contain attacker-influenced path components. Nothing in
//! SeedMedic joins a torrent-supplied path onto a real directory except through
//! [`SafeRelativePath`], whose only constructors reject anything that could
//! escape, alias, or confuse the staging root.
//!
//! This type is *purely* syntactic. It cannot know about symlinks, so the
//! filesystem-level escape check lives next to the code that touches the disk.

use vstd::prelude::*;
use vstd::string::*;

use crate::text::{byte_count, chars_of, decimal_of, holds, join, quote, same, split};

verus! {

/// Longest single component we will create. Common Linux filesystems cap names
/// at 255 bytes; failing early gives a better error than `ENAMETOOLONG`.
pub const MAX_COMPONENT_BYTES: usize = 255;

#[derive(Clone, Debug, PartialEq, Eq)]
pub enum PathRejection {
    /// path has no components
    Empty,
    /// path component is empty
    EmptyComponent,
    /// absolute paths are not allowed
    Absolute,
    /// `..` components are not allowed
    ParentTraversal,
    /// `.` components are not allowed
    CurrentDirectory,
    /// component contains a path separator
    SeparatorInComponent { component: String },
    /// component contains a NUL or control byte
    ControlCharacter { component: String },
    /// component is longer than [`MAX_COMPONENT_BYTES`]
    ComponentTooLong { len: usize },
}

impl PathRejection {
    /// The sentence shown for it.
    pub open spec fn sentence(self) -> Seq<char> {
        match self {
            PathRejection::Empty => "path has no components"@,
            PathRejection::EmptyComponent => "path component is empty"@,
            PathRejection::Absolute => "absolute paths are not allowed"@,
            PathRejection::ParentTraversal => "`..` components are not allowed"@,
            PathRejection::CurrentDirectory => "`.` components are not allowed"@,
            PathRejection::SeparatorInComponent { component } =>
                "component contains a path separator: "@ + crate::text::quoted(component@),
            PathRejection::ControlCharacter { component } =>
                "component contains a NUL or control byte: "@ + crate::text::quoted(component@),
            PathRejection::ComponentTooLong { len } => "component is "@ + crate::text::decimal(
                len as nat,
            ) + " bytes, limit is 255"@,
        }
    }

    pub fn message(&self) -> (r: String)
        ensures
            r@ == self.sentence(),
    {
        match self {
            PathRejection::Empty => "path has no components".to_owned(),
            PathRejection::EmptyComponent => "path component is empty".to_owned(),
            PathRejection::Absolute => "absolute paths are not allowed".to_owned(),
            PathRejection::ParentTraversal => "`..` components are not allowed".to_owned(),
            PathRejection::CurrentDirectory => "`.` components are not allowed".to_owned(),
            PathRejection::SeparatorInComponent { component } => {
                let mut out = "component contains a path separator: ".to_owned();
                out.append(quote(component.as_str()).as_str());
                out
            },
            PathRejection::ControlCharacter { component } => {
                let mut out = "component contains a NUL or control byte: ".to_owned();
                out.append(quote(component.as_str()).as_str());
                out
            },
            PathRejection::ComponentTooLong { len } => {
                let mut out = "component is ".to_owned();
                out.append(decimal_of(*len as u128).as_str());
                out.append(" bytes, limit is 255");
                out
            },
        }
    }
}

/// A control code: the C0 set, DEL, and the C1 set.
pub open spec fn is_control(c: char) -> bool {
    c <= '\u{1f}' || '\u{7f}' <= c <= '\u{9f}'
}

/// Some character of `s` is a control code.
pub open spec fn has_control(s: Seq<char>) -> bool {
    exists|i: int| 0 <= i < s.len() && is_control(#[trigger] s[i])
}

/// `c` is exactly one ordinary name: not empty, not too long, not `.` or `..`,
/// without a separator of any system and without a control code.
pub open spec fn safe_component(c: Seq<char>) -> bool {
    &&& c.len() > 0
    &&& crate::text::byte_len(c) <= MAX_COMPONENT_BYTES
    &&& c != ".."@
    &&& c != "."@
    &&& !c.contains('/')
    &&& !c.contains('\\')
    &&& !has_control(c)
}

/// Why `c` is not an ordinary name: the first rule that it breaks.
pub open spec fn component_rejected(c: Seq<char>, why: PathRejection) -> bool {
    if c.len() == 0 {
        why is EmptyComponent
    } else if crate::text::byte_len(c) > MAX_COMPONENT_BYTES {
        why matches PathRejection::ComponentTooLong { len } && len == crate::text::byte_len(c)
    } else if c == ".."@ {
        why is ParentTraversal
    } else if c == "."@ {
        why is CurrentDirectory
    } else if c[0] == '/' || c[0] == '\\' {
        why is Absolute
    } else if c.contains('/') || c.contains('\\') {
        why matches PathRejection::SeparatorInComponent { component } && component@ == c
    } else if has_control(c) {
        why matches PathRejection::ControlCharacter { component } && component@ == c
    } else {
        false
    }
}

/// Every name of a list is an ordinary one.
pub open spec fn all_safe(components: Seq<Seq<char>>) -> bool {
    forall|i: int| 0 <= i < components.len() ==> safe_component(#[trigger] components[i])
}

/// Why a list of names makes no path: it is empty, or the first name that is
/// no ordinary one is rejected.
pub open spec fn components_rejected(components: Seq<Seq<char>>, why: PathRejection) -> bool {
    if components.len() == 0 {
        why is Empty
    } else {
        exists|i: int|
            0 <= i < components.len() && all_safe(components.take(i)) && component_rejected(
                #[trigger] components[i],
                why,
            )
    }
}

/// A `/`-separated path all of whose components are ordinary names.
pub open spec fn safe_path(path: Seq<char>) -> bool {
    all_safe(crate::text::fields(path, '/'))
}

/// Why a text is no safe path.
pub open spec fn path_rejected(path: Seq<char>, why: PathRejection) -> bool {
    if crate::text::begins_with(path, '/') || crate::text::begins_with(path, '\\') {
        why is Absolute
    } else {
        components_rejected(crate::text::fields(path, '/'), why)
    }
}

/// `rest` below the directory `root`: a separator between them, unless `root`
/// is empty or already ends in one.
pub open spec fn below(root: Seq<char>, rest: Seq<char>) -> Seq<char> {
    if root.len() == 0 {
        rest
    } else if root.last() == '/' {
        root + rest
    } else {
        root + seq!['/'] + rest
    }
}

/// A relative path that is safe to join onto a directory we own.
///
/// Stored `/`-separated. Ordering is deterministic so plans and audit records
/// compare stably.
#[derive(Debug, PartialEq, Eq, Hash, PartialOrd, Ord)]
pub struct SafeRelativePath(String);

impl View for SafeRelativePath {
    type V = Seq<char>;

    closed spec fn view(&self) -> Seq<char> {
        self.0@
    }
}

impl Clone for SafeRelativePath {
    fn clone(&self) -> (r: SafeRelativePath)
        ensures
            r == *self,
    {
        proof {
            use_type_invariant(self);
        }
        SafeRelativePath(self.0.clone())
    }
}

impl SafeRelativePath {
    #[verifier::type_invariant]
    spec fn every_component_is_safe(self) -> bool {
        safe_path(self.0@)
    }

    /// The names between the separators.
    pub open spec fn components(&self) -> Seq<Seq<char>> {
        crate::text::fields(self@, '/')
    }

    /// Build from the component list a `.torrent` gives us (`info.files[].path`).
    pub fn from_components(components: &[String]) -> (r: Result<SafeRelativePath, PathRejection>)
        ensures
            match r {
                Ok(path) => {
                    &&& components@.len() > 0
                    &&& all_safe(crate::text::texts(components@))
                    &&& path@ == crate::text::joined(crate::text::texts(components@), '/')
                    &&& path.components() == crate::text::texts(components@)
                },
                Err(why) => components_rejected(crate::text::texts(components@), why),
            },
    {
        let ghost parts = crate::text::texts(components@);
        let mut i: usize = 0;
        while i < components.len()
            invariant
                i <= components@.len(),
                parts == crate::text::texts(components@),
                all_safe(parts.take(i as int)),
            decreases components@.len() - i,
        {
            match validate_component(components[i].as_str()) {
                Ok(()) => {},
                Err(why) => {
                    assert(parts[i as int] == components@[i as int]@);
                    return Err(why);
                },
            }
            proof {
                assert forall|k: int| 0 <= k < i + 1 implies safe_component(
                    #[trigger] parts.take(i + 1)[k],
                ) by {
                    if k < i {
                        assert(parts.take(i + 1)[k] == parts.take(i as int)[k]);
                    } else {
                        assert(parts[k] == components@[k]@);
                    }
                }
            }
            i += 1;
        }
        if components.len() == 0 {
            return Err(PathRejection::Empty);
        }
        proof {
            assert(parts.take(i as int) =~= parts);
            crate::text::fields_of_joined(parts, '/');
        }
        Ok(SafeRelativePath(join(components, '/')))
    }

    /// Build from an already-joined relative path such as `Season 01/ep.mkv`.
    pub fn parse(path: &str) -> (r: Result<SafeRelativePath, PathRejection>)
        ensures
            match r {
                Ok(safe) => safe_path(path@) && safe@ == path@,
                Err(why) => path_rejected(path@, why),
            },
            r is Ok <==> safe_path(path@),
    {
        let chars = chars_of(path);
        proof {
            crate::text::joined_fields(path@, '/');
            crate::text::fields_hold_no_separator(path@, '/');
        }
        if chars.len() > 0 && (chars[0] == '/' || chars[0] == '\\') {
            proof {
                unsafe_start(path@);
            }
            return Err(PathRejection::Absolute);
        }
        let parts = split(path, '/');
        let r = SafeRelativePath::from_components(parts.as_slice());
        proof {
            if r is Err {
                rejected_is_not_safe(crate::text::fields(path@, '/'), r->Err_0);
            }
        }
        r
    }

    /// Prefix this path with `component`, e.g. a torrent's root directory name.
    pub fn prefixed_with(&self, component: &str) -> (r: Result<SafeRelativePath, PathRejection>)
        ensures
            match r {
                Ok(path) => {
                    &&& safe_component(component@)
                    &&& path@ == component@ + seq!['/'] + self@
                    &&& path.components() == seq![component@] + self.components()
                },
                Err(why) => component_rejected(component@, why),
            },
    {
        proof {
            use_type_invariant(self);
        }
        match validate_component(component) {
            Ok(()) => {},
            Err(why) => return Err(why),
        }
        let mut out = component.to_owned();
        out.push('/');
        out.append(self.0.as_str());
        proof {
            assert(out@ =~= component@ + seq!['/'] + self@);
            crate::text::fields_of_pair(component@, '/', self@);
            crate::text::fields_of_plain(component@, '/');
        }
        Ok(SafeRelativePath(out))
    }

    /// Nest `self` under `prefix`. Total, because both sides are already valid.
    pub fn under(&self, prefix: &SafeRelativePath) -> (r: SafeRelativePath)
        ensures
            r@ == prefix@ + seq!['/'] + self@,
            r.components() == prefix.components() + self.components(),
    {
        proof {
            use_type_invariant(self);
            use_type_invariant(prefix);
        }
        let mut out = prefix.0.clone();
        out.push('/');
        out.append(self.0.as_str());
        proof {
            assert(out@ =~= prefix@ + seq!['/'] + self@);
            crate::text::fields_of_pair(prefix@, '/', self@);
        }
        SafeRelativePath(out)
    }

    /// The path as stored. However the value was made, every component of it
    /// is an ordinary name.
    pub fn as_str(&self) -> (r: &str)
        ensures
            r@ == self@,
            safe_path(r@),
    {
        proof {
            use_type_invariant(self);
        }
        self.0.as_str()
    }

    /// Join onto a directory. Safe by construction: every component was checked
    /// to be a plain name, so the result cannot leave `root` syntactically.
    pub fn join_onto(&self, root: &str) -> (r: String)
        ensures
            r@ == below(root@, self@),
            crate::paths::components(r@) == crate::paths::components(root@) + self.components(),
    {
        proof {
            use_type_invariant(self);
            join_stays_below(root@, self@);
        }
        let chars = chars_of(root);
        let mut out = root.to_owned();
        if chars.len() > 0 && chars[chars.len() - 1] != '/' {
            out.push('/');
        }
        out.append(self.0.as_str());
        proof {
            assert(out@ =~= below(root@, self@));
        }
        out
    }

    /// Directory components, outermost first. Used to create parents one level
    /// at a time so each can be symlink-checked.
    pub fn parent_components(&self) -> (r: Vec<String>)
        ensures
            crate::text::texts(r@) == self.components().drop_last(),
            all_safe(crate::text::texts(r@)),
    {
        proof {
            use_type_invariant(self);
        }
        let mut parts = split(self.0.as_str(), '/');
        let ghost all = crate::text::texts(parts@);
        let _ = parts.pop();
        assert(crate::text::texts(parts@) =~= all.drop_last());
        parts
    }

    /// Whether two paths are the same path.
    pub fn is(&self, other: &SafeRelativePath) -> (r: bool)
        ensures
            r == (self@ == other@),
    {
        same(self.0.as_str(), other.0.as_str())
    }
}

/// A path that begins with a separator has no safe first component.
proof fn unsafe_start(path: Seq<char>)
    requires
        path.len() > 0,
        path[0] == '/' || path[0] == '\\',
    ensures
        !safe_path(path),
{
    let parts = crate::text::fields(path, '/');
    crate::text::joined_fields(path, '/');
    crate::text::fields_hold_no_separator(path, '/');
    first_of_joined(parts);
    if safe_path(path) {
        assert(safe_component(parts[0]));
        assert(parts[0].contains(parts[0][0]));
    }
}

proof fn first_of_joined(parts: Seq<Seq<char>>)
    requires
        parts.len() >= 1,
    ensures
        parts[0].len() > 0 ==> crate::text::joined(parts, '/').len() > 0 && crate::text::joined(
            parts,
            '/',
        )[0] == parts[0][0],
    decreases parts.len(),
{
    if parts.len() > 1 {
        first_of_joined(parts.drop_last());
    }
}

/// A rejected list is never one of safe names.
pub proof fn rejected_is_not_safe(components: Seq<Seq<char>>, why: PathRejection)
    requires
        components_rejected(components, why),
    ensures
        components.len() == 0 || !all_safe(components),
{
    if components.len() > 0 {
        let i = choose|i: int|
            0 <= i < components.len() && all_safe(components.take(i)) && component_rejected(
                #[trigger] components[i],
                why,
            );
        assert(!safe_component(components[i])) by {
            let c = components[i];
            if c.len() > 0 && (c[0] == '/' || c[0] == '\\') {
                assert(c.contains(c[0]));
            }
        }
    }
}

/// A safe path joined onto a directory stays below it: its components are the
/// directory's, followed by the path's own.
pub proof fn join_stays_below(root: Seq<char>, path: Seq<char>)
    requires
        safe_path(path),
    ensures
        crate::paths::components(below(root, path)) == crate::paths::components(root)
            + crate::text::fields(path, '/'),
        crate::paths::within(below(root, path), root),
{
    let keep = |f: Seq<char>| crate::paths::is_name(f);
    let own = crate::text::fields(path, '/');
    let whole = below(root, path);
    crate::text::fields_hold_no_separator(path, '/');
    crate::text::fields_hold_no_separator(root, '/');
    names_are_kept(own);
    reveal_strlit(".");
    assert(safe_component(own[0]));
    if root.len() == 0 {
        if crate::text::begins_with(path, '/') {
            unsafe_start(path);
        }
        assert(crate::paths::lead(path) =~= Seq::<Seq<char>>::empty());
        assert(crate::text::fields(root, '/') =~= seq![Seq::<char>::empty()]);
        reveal_with_fuel(Seq::filter, 2);
        assert(seq![Seq::<char>::empty()].drop_last() =~= Seq::<Seq<char>>::empty());
        assert(crate::paths::names(root) =~= Seq::<Seq<char>>::empty());
        assert(crate::paths::components(root) =~= Seq::<Seq<char>>::empty());
        assert(crate::paths::components(whole) =~= own);
    } else {
        let dir = if root.last() == '/' {
            root.drop_last()
        } else {
            root
        };
        assert(whole =~= dir + seq!['/'] + path);
        crate::text::fields_of_pair(dir, '/', path);
        crate::text::fields_hold_no_separator(dir, '/');
        Seq::filter_distributes_over_add(crate::text::fields(dir, '/'), own, keep);
        if root.last() == '/' {
            let front = crate::text::fields(dir, '/');
            assert(crate::text::fields(root, '/') == front.push(Seq::<char>::empty()));
            reveal(Seq::filter);
            assert(front.push(Seq::<char>::empty()).drop_last() =~= front);
            assert(crate::paths::names(root) == front.filter(keep));
            assert(crate::text::fields(root, '/')[0] == front[0]);
        }
        assert(crate::paths::names(whole) =~= crate::paths::names(root) + own);
        assert(whole[0] == root[0]);
        assert(crate::text::fields(whole, '/')[0] == crate::text::fields(root, '/')[0]);
        assert(crate::paths::lead(whole) == crate::paths::lead(root));
        assert(crate::paths::components(whole) =~= crate::paths::components(root) + own);
    }
    assert(crate::paths::components(root).is_prefix_of(crate::paths::components(whole))) by {
        assert(crate::paths::components(root) =~= crate::paths::components(whole).subrange(
            0,
            crate::paths::components(root).len() as int,
        ));
    }
}

/// Safe components are all names.
proof fn names_are_kept(parts: Seq<Seq<char>>)
    requires
        all_safe(parts),
    ensures
        parts.filter(|f: Seq<char>| crate::paths::is_name(f)) == parts,
    decreases parts.len(),
{
    reveal(Seq::filter);
    if parts.len() > 0 {
        let front = parts.drop_last();
        assert(all_safe(front)) by {
            assert forall|i: int| 0 <= i < front.len() implies safe_component(
                #[trigger] front[i],
            ) by {
                assert(front[i] == parts[i]);
            }
        }
        names_are_kept(front);
        assert(safe_component(parts[parts.len() - 1]));
        assert(front.push(parts.last()) =~= parts);
    }
}

/// Whether a character is a control code.
fn control(c: char) -> (r: bool)
    ensures
        r == is_control(c),
{
    c <= '\u{1f}' || ('\u{7f}' <= c && c <= '\u{9f}')
}

/// Whether some character is a control code.
fn any_control(chars: &[char]) -> (r: bool)
    ensures
        r == has_control(chars@),
{
    let mut i: usize = 0;
    while i < chars.len()
        invariant
            i <= chars@.len(),
            forall|k: int| 0 <= k < i ==> !is_control(#[trigger] chars@[k]),
        decreases chars@.len() - i,
    {
        if control(chars[i]) {
            assert(is_control(chars@[i as int]));
            return true;
        }
        i += 1;
    }
    false
}

/// Accept exactly the ordinary names. The checks run in the order in which
/// the reasons are told: the more accurate one first.
pub fn validate_component(component: &str) -> (r: Result<(), PathRejection>)
    ensures
        match r {
            Ok(()) => safe_component(component@),
            Err(why) => component_rejected(component@, why) && !safe_component(component@),
        },
{
    let chars = chars_of(component);
    if chars.len() == 0 {
        return Err(PathRejection::EmptyComponent);
    }
    let len: usize = byte_count(component);
    if len > MAX_COMPONENT_BYTES {
        return Err(PathRejection::ComponentTooLong { len });
    }
    if same(component, "..") {
        return Err(PathRejection::ParentTraversal);
    }
    if same(component, ".") {
        return Err(PathRejection::CurrentDirectory);
    }
    // Checked before the general separator rule so a rooted component reports
    // the more accurate reason.
    if chars[0] == '/' || chars[0] == '\\' {
        assert(component@.contains(component@[0]));
        return Err(PathRejection::Absolute);
    }
    if holds(chars.as_slice(), '/') || holds(chars.as_slice(), '\\') {
        return Err(PathRejection::SeparatorInComponent { component: component.to_owned() });
    }
    if any_control(chars.as_slice()) {
        return Err(PathRejection::ControlCharacter { component: component.to_owned() });
    }
    Ok(())
}

/// An ASCII letter, a digit, a dot or a hyphen.
pub open spec fn is_plain(c: char) -> bool {
    'a' <= c <= 'z' || 'A' <= c <= 'Z' || '0' <= c <= '9' || c == '.' || c == '-'
}

/// The first `n` characters are plain.
pub open spec fn plain_to(s: Seq<char>, n: nat) -> bool
    decreases n,
{
    n == 0 || (is_plain(s[n - 1]) && plain_to(s, (n - 1) as nat))
}

proof fn plain_everywhere(s: Seq<char>, n: nat)
    requires
        plain_to(s, n),
    ensures
        forall|i: int| 0 <= i < n ==> is_plain(#[trigger] s[i]),
    decreases n,
{
    if n > 0 {
        plain_everywhere(s, (n - 1) as nat);
    }
}

/// A name of plain characters that starts with no dot is an ordinary one.
pub proof fn plain_names_are_safe(s: Seq<char>)
    requires
        0 < s.len() <= MAX_COMPONENT_BYTES,
        s[0] != '.',
        plain_to(s, s.len()),
    ensures
        safe_path(s),
        safe_component(s),
{
    plain_everywhere(s, s.len());
    reveal_strlit(".");
    reveal_strlit("..");
    vstd::utf8::is_ascii_chars_encode_utf8(s);
    assert(crate::text::byte_len(s) == s.len());
    assert(!s.contains('/'));
    crate::text::fields_of_plain(s, '/');
    assert(s != "."@) by {
        assert("."@[0] == '.');
    }
    assert(s != ".."@) by {
        assert(".."@[0] == '.');
    }
    assert(!has_control(s));
    assert(crate::text::fields(s, '/')[0] == s);
}

/// A name is safe exactly when it has between one byte and 255 of them, is
/// neither `.` nor `..`, and no character of it is a slash, a backslash, or one
/// of the control codes below space and from DEL to U+009F. Any other letter,
/// of any script, is fine.
pub proof fn what_a_safe_name_is(c: Seq<char>)
    ensures
        safe_component(c) <==> {
            &&& 1 <= vstd::utf8::encode_utf8(c).len() <= 255
            &&& c != seq!['.']
            &&& c != seq!['.', '.']
            &&& forall|i: int|
                0 <= i < c.len() ==> {
                    &&& #[trigger] c[i] != '/'
                    &&& c[i] != '\\'
                    &&& c[i] as int >= 32
                    &&& !(127 <= c[i] as int <= 159)
                }
        },
{
    reveal_strlit(".");
    reveal_strlit("..");
    assert("."@ =~= seq!['.']);
    assert(".."@ =~= seq!['.', '.']);
    if c.len() == 0 {
        assert(vstd::utf8::encode_utf8(c).len() == 0);
    } else {
        vstd::utf8::encode_utf8_first_scalar(c);
    }
    if safe_component(c) {
        assert forall|i: int| 0 <= i < c.len() implies {
            &&& #[trigger] c[i] != '/'
            &&& c[i] != '\\'
            &&& c[i] as int >= 32
            &&& !(127 <= c[i] as int <= 159)
        } by {
            assert(c.contains(c[i]));
            assert(!is_control(c[i]));
        }
    }
    if forall|i: int|
        0 <= i < c.len() ==> {
            &&& #[trigger] c[i] != '/'
            &&& c[i] != '\\'
            &&& c[i] as int >= 32
            &&& !(127 <= c[i] as int <= 159)
        } {
        assert(!c.contains('/'));
        assert(!c.contains('\\'));
        assert(!has_control(c));
    }
}

/// A name is rejected for what is wrong with it, and only a name that is not
/// safe is.
pub proof fn a_name_is_rejected_for_a_reason(c: Seq<char>, why: PathRejection)
    requires
        component_rejected(c, why),
    ensures
        !safe_component(c),
        why is EmptyComponent ==> c.len() == 0,
        why is ParentTraversal ==> c == ".."@,
        why is CurrentDirectory ==> c == "."@,
        why is Absolute ==> c[0] == '/' || c[0] == '\\',
        why is SeparatorInComponent ==> c.contains('/') || c.contains('\\'),
        why is ControlCharacter ==> exists|i: int|
            0 <= i < c.len() && ((#[trigger] c[i] as int) < 32 || 127 <= c[i] as int <= 159),
        why is ComponentTooLong ==> vstd::utf8::encode_utf8(c).len() > 255,
        why !is Empty,
{
    if c.len() > 0 && (c[0] == '/' || c[0] == '\\') {
        assert(c.contains(c[0]));
    }
    if why is ControlCharacter {
        let i = choose|i: int| 0 <= i < c.len() && is_control(#[trigger] c[i]);
        assert((c[i] as int) < 32 || 127 <= c[i] as int <= 159);
    }
}

/// A path is safe exactly when every name between its slashes is, so two safe
/// paths make a safe one with a slash between them, and one that goes up or
/// starts at the root is never safe.
pub proof fn safe_paths_are_made_of_safe_names(a: Seq<char>, b: Seq<char>)
    ensures
        safe_path(a + seq!['/'] + b) <==> safe_path(a) && safe_path(b),
        !a.contains('/') ==> (safe_path(a) <==> safe_component(a)),
        !safe_path(seq!['/'] + b),
{
    let whole = crate::text::fields(a + seq!['/'] + b, '/');
    let (x, y) = (crate::text::fields(a, '/'), crate::text::fields(b, '/'));
    crate::text::fields_of_pair(a, '/', b);
    assert(whole =~= x + y);
    if safe_path(a + seq!['/'] + b) {
        assert forall|i: int| 0 <= i < x.len() implies safe_component(#[trigger] x[i]) by {
            assert(whole[i] == x[i]);
        }
        assert forall|i: int| 0 <= i < y.len() implies safe_component(#[trigger] y[i]) by {
            assert(whole[x.len() + i] == y[i]);
        }
    }
    if !a.contains('/') {
        crate::text::fields_of_plain(a, '/');
        assert(crate::text::fields(a, '/')[0] == a);
    }
    unsafe_start(seq!['/'] + b);
}

/// A path below a directory is the directory's text, one slash, and the path's
/// own; below nothing it is itself.
pub proof fn below_puts_one_slash_between(root: Seq<char>, rest: Seq<char>)
    ensures
        below(Seq::empty(), rest) == rest,
        root.len() > 0 && root.last() != '/' ==> below(root, rest) == root.push('/') + rest,
        root.len() > 0 && root.last() == '/' ==> below(root, rest) == root + rest,
        root.len() > 0 && root.last() != '/' ==> below(root, rest) == below(root.push('/'), rest),
{
    assert(root + seq!['/'] + rest =~= root.push('/') + rest);
}

} // verus!
