//! Filesystem-level escape checks.
//!
//! [`SafeRelativePath`] guarantees a path is syntactically contained. That is
//! not enough on a real filesystem: a symlink anywhere along the way turns a
//! contained path into an arbitrary write. Every staging operation resolves its
//! destination through [`resolve_under`] first.

use vstd::prelude::*;
use vstd::string::*;

use super::ports::StagingError;
use crate::text::{chars_of, split};
use crate::torrent::SafeRelativePath;

verus! {

/// What was found at a path, without following a symlink there.
#[derive(Debug, PartialEq, Eq)]
pub enum Found {
    /// Nothing: there is nothing to escape through.
    Nothing,
    Symlink,
    /// A file, a directory, or anything else that is no symlink.
    Real,
    /// It could not be looked at, and why.
    Unknown(String),
}

/// What making a directory came to.
#[derive(Debug, PartialEq, Eq)]
pub enum Made {
    Created,
    AlreadyThere,
    /// It could not be made, and why.
    Failed(String),
}

/// The path one level below.
pub fn descend(dir: &str, name: &str) -> (r: String)
    ensures
        r@ == crate::torrent::path::below(dir@, name@),
{
    let chars = chars_of(dir);
    let mut out = dir.to_owned();
    if chars.len() > 0 && chars[chars.len() - 1] != '/' {
        out.push('/');
    }
    out.append(name);
    assert(out@ =~= crate::torrent::path::below(dir@, name@));
    out
}

/// The directory `n` names below `root`.
pub open spec fn level(root: Seq<char>, names: Seq<Seq<char>>, n: int) -> Seq<char>
    decreases n,
{
    if n <= 0 {
        root
    } else {
        crate::torrent::path::below(level(root, names, n - 1), names[n - 1])
    }
}

/// `root`, then the path of each of the names below the one before.
fn descents(root: &str, names: &Vec<String>) -> (r: Vec<String>)
    ensures
        r@.len() == names@.len() + 1,
        forall|i: int|
            0 <= i < r@.len() ==> (#[trigger] r@[i])@ == level(
                root@,
                crate::text::texts(names@),
                i,
            ),
{
    let ghost all = crate::text::texts(names@);
    let mut out: Vec<String> = Vec::new();
    let mut current = root.to_owned();
    out.push(root.to_owned());
    let mut i: usize = 0;
    while i < names.len()
        invariant
            i <= names@.len(),
            crate::text::texts(names@) == all,
            current@ == level(root@, all, i as int),
            out@.len() == i + 1,
            forall|k: int| 0 <= k < out@.len() ==> (#[trigger] out@[k])@ == level(root@, all, k),
        decreases names@.len() - i,
    {
        assert(all[i as int] == names@[i as int]@);
        current = descend(current.as_str(), names[i].as_str());
        out.push(current.clone());
        i += 1;
    }
    out
}

/// The places on the way to `path`, outermost first: `root`, then `path` cut
/// off behind each of its components, the last one included.
pub fn levels(root: &str, path: &SafeRelativePath) -> (r: Vec<String>)
    ensures
        r@.len() == path.components().len() + 1,
        forall|i: int|
            0 <= i < r@.len() ==> (#[trigger] r@[i])@ == level(root@, path.components(), i),
{
    descents(root, &split(path.as_str(), '/'))
}

/// The directories on the way to `path`, outermost first: `root`, then each
/// parent of `path` below it.
pub fn parent_levels(root: &str, path: &SafeRelativePath) -> (r: Vec<String>)
    ensures
        r@.len() == path.components().drop_last().len() + 1,
        forall|i: int|
            0 <= i < r@.len() ==> (#[trigger] r@[i])@ == level(
                root@,
                path.components().drop_last(),
                i,
            ),
{
    descents(root, &path.parent_components())
}

/// Refuse a symlink, and refuse to guess.
pub fn reject_if_symlink(path: &str, found: &Found) -> (r: Result<(), StagingError>)
    ensures
        match r {
            Ok(()) => found is Nothing || found is Real,
            Err(error) => rejected(path@, *found, error),
        },
{
    match found {
        Found::Nothing => Ok(()),
        Found::Real => Ok(()),
        Found::Symlink => Err(
            StagingError::UnsafePath {
                path: path.to_owned(),
                reason: "path component is a symlink",
            },
        ),
        Found::Unknown(why) => {
            let mut message = "cannot stat ".to_owned();
            message.append(path);
            message.append(": ");
            message.append(why.as_str());
            Err(StagingError::Io(message))
        },
    }
}

/// The error that what was found at `path` comes to.
pub open spec fn rejected(path: Seq<char>, found: Found, error: StagingError) -> bool {
    match found {
        Found::Symlink => error matches StagingError::UnsafePath { path: p, reason } && p@ == path
            && reason@ == "path component is a symlink"@,
        Found::Unknown(why) => error matches StagingError::Io(message) && message@
            == "cannot stat "@ + path + ": "@ + why@,
        _ => false,
    }
}

/// Nothing on the way is a symlink or unknown.
pub open spec fn way_is_clear(found: Seq<Found>) -> bool {
    forall|i: int| 0 <= i < found.len() ==> (#[trigger] found[i]) is Nothing || found[i] is Real
}

/// The error is that of the first place on the way that is not clear.
pub open spec fn first_rejected(
    root: Seq<char>,
    names: Seq<Seq<char>>,
    found: Seq<Found>,
    error: StagingError,
) -> bool {
    exists|i: int|
        0 <= i < found.len() && way_is_clear(found.take(i)) && rejected(
            level(root, names, i),
            #[trigger] found[i],
            error,
        )
}

/// Judge what was found at each of the places.
fn check_each(
    ways: &Vec<String>,
    found: &Vec<Found>,
    Ghost(root): Ghost<Seq<char>>,
    Ghost(names): Ghost<Seq<Seq<char>>>,
) -> (r: Result<(), StagingError>)
    requires
        ways@.len() == found@.len(),
        forall|k: int| 0 <= k < ways@.len() ==> (#[trigger] ways@[k])@ == level(root, names, k),
    ensures
        match r {
            Ok(()) => way_is_clear(found@),
            Err(error) => first_rejected(root, names, found@, error),
        },
{
    let mut i: usize = 0;
    while i < ways.len()
        invariant
            i <= ways@.len(),
            ways@.len() == found@.len(),
            forall|k: int|
                0 <= k < ways@.len() ==> (#[trigger] ways@[k])@ == level(root, names, k),
            way_is_clear(found@.take(i as int)),
        decreases ways@.len() - i,
    {
        match reject_if_symlink(ways[i].as_str(), &found[i]) {
            Ok(()) => {},
            Err(error) => {
                assert(rejected(level(root, names, i as int), found@[i as int], error));
                return Err(error);
            },
        }
        proof {
            assert forall|k: int| 0 <= k < i + 1 implies (#[trigger] found@.take(i + 1)[k]) is Nothing
                || found@.take(i + 1)[k] is Real by {
                if k < i {
                    assert(found@.take(i + 1)[k] == found@.take(i as int)[k]);
                }
            }
        }
        i += 1;
    }
    assert(found@.take(i as int) =~= found@);
    Ok(())
}

/// An error says that the way is not clear.
pub proof fn rejected_is_not_clear(
    root: Seq<char>,
    names: Seq<Seq<char>>,
    found: Seq<Found>,
    error: StagingError,
)
    requires
        first_rejected(root, names, found, error),
    ensures
        !way_is_clear(found),
{
    let i = choose|i: int|
        0 <= i < found.len() && way_is_clear(found.take(i)) && rejected(
            level(root, names, i),
            #[trigger] found[i],
            error,
        );
    assert(!(found[i] is Nothing || found[i] is Real));
}

/// What resolving a path comes to.
pub open spec fn resolved_under(
    root: Seq<char>,
    path: SafeRelativePath,
    found: Seq<Found>,
    r: Result<String, StagingError>,
) -> bool {
    &&& r is Ok <==> way_is_clear(found)
    &&& match r {
        Ok(resolved) => resolved@ == crate::torrent::path::below(root, path@),
        Err(error) => first_rejected(root, path.components(), found, error),
    }
}

/// What looking along the way to a path comes to.
pub open spec fn parents_checked(
    root: Seq<char>,
    path: SafeRelativePath,
    found: Seq<Found>,
    r: Result<(), StagingError>,
) -> bool {
    &&& r is Ok <==> way_is_clear(found)
    &&& r matches Err(error) ==> first_rejected(root, path.components().drop_last(), found, error)
}

/// Resolve `path` under `root`, refusing if any component that already exists
/// is a symlink, the last one included. `found` is what stands at each of the
/// [`levels`].
///
/// Checked outermost-in, so a symlink is caught before anything is created
/// beneath it. Components that do not exist yet are fine: they will be created
/// as real directories.
pub fn resolve_under(root: &str, path: &SafeRelativePath, found: &Vec<Found>) -> (r: Result<
    String,
    StagingError,
>)
    requires
        found@.len() == path.components().len() + 1,
    ensures
        resolved_under(root@, *path, found@, r),
{
    let ways = levels(root, path);
    match check_each(&ways, found, Ghost(root@), Ghost(path.components())) {
        Ok(()) => Ok(path.join_onto(root)),
        Err(error) => {
            proof {
                rejected_is_not_clear(root@, path.components(), found@, error);
            }
            Err(error)
        },
    }
}

/// Refuse a symlink among the directories on the way to `path`; what stands at
/// `path` itself is judged by whoever is about to write there. `found` is what
/// stands at each of the [`parent_levels`].
pub fn check_parents(root: &str, path: &SafeRelativePath, found: &Vec<Found>) -> (r: Result<
    (),
    StagingError,
>)
    requires
        found@.len() == path.components().len(),
    ensures
        parents_checked(root@, *path, found@, r),
{
    let ways = parent_levels(root, path);
    let ghost parents = path.components().drop_last();
    proof {
        crate::text::fields_hold_no_separator(path@, '/');
    }
    match check_each(&ways, found, Ghost(root@), Ghost(parents)) {
        Ok(()) => Ok(()),
        Err(error) => {
            proof {
                rejected_is_not_clear(root@, parents, found@, error);
            }
            Err(error)
        },
    }
}

/// Judge one level of making the directories on the way to a file. Making a
/// level that is already there is fine; a symlink planted in its place is not.
pub fn check_made_directory(path: &str, made: &Made, found: &Found) -> (r: Result<
    (),
    StagingError,
>)
    ensures
        match r {
            Ok(()) => made !is Failed && (found is Nothing || found is Real),
            Err(error) => match *made {
                Made::Failed(why) => error matches StagingError::Io(message) && message@
                    == "cannot create "@ + path@ + ": "@ + why@,
                _ => rejected(path@, *found, error),
            },
        },
{
    match made {
        Made::Failed(why) => {
            let mut message = "cannot create ".to_owned();
            message.append(path);
            message.append(": ");
            message.append(why.as_str());
            Err(StagingError::Io(message))
        },
        _ => reject_if_symlink(path, found),
    }
}

/// Every level is the one before it, a slash, and the next of the names; the
/// outermost is the root itself.
pub proof fn levels_follow_the_names(root: Seq<char>, names: Seq<Seq<char>>, n: int)
    requires
        0 <= n < names.len(),
    ensures
        level(root, names, 0) == root,
        level(root, names, n).len() > 0 && level(root, names, n).last() != '/' ==> level(
            root,
            names,
            n + 1,
        ) == level(root, names, n) + seq!['/'] + names[n],
        level(root, names, n).len() > 0 && level(root, names, n).last() == '/' ==> level(
            root,
            names,
            n + 1,
        ) == level(root, names, n) + names[n],
{
    reveal_with_fuel(level, 2);
}

/// A path is resolved exactly where every place on the way holds nothing or
/// something real. One symlink is enough to refuse it, and so is one place that
/// could not be looked at; where the first of them is a symlink, the refusal says
/// which place it is.
pub proof fn one_symlink_is_enough_to_refuse(
    root: Seq<char>,
    path: SafeRelativePath,
    found: Seq<Found>,
    r: Result<String, StagingError>,
    k: int,
)
    requires
        resolved_under(root, path, found, r),
        0 <= k < found.len(),
    ensures
        found[k] is Symlink || found[k] is Unknown ==> r is Err,
        (forall|i: int|
            0 <= i < found.len() ==> (#[trigger] found[i]) is Nothing || found[i] is Real)
            ==> r is Ok,
        root.len() > 0 && root.last() != '/' ==> (r matches Ok(resolved) ==> resolved@ == root
            + seq!['/'] + path@),
        found[k] is Symlink && (forall|i: int|
            0 <= i < k ==> (#[trigger] found[i]) is Nothing || found[i] is Real) ==> (r matches Err(
            StagingError::UnsafePath { path: place, reason },
        ) && place@ == level(root, path.components(), k) && reason@
            == "path component is a symlink"@),
        found[k] is Unknown && (forall|i: int|
            0 <= i < k ==> (#[trigger] found[i]) is Nothing || found[i] is Real) ==> (r matches Err(
            StagingError::Io(_),
        )),
{
    if r is Err && (found[k] is Symlink || found[k] is Unknown) && (forall|i: int|
        0 <= i < k ==> (#[trigger] found[i]) is Nothing || found[i] is Real) {
        the_first_bad_place_decides(root, path.components(), found, r->Err_0, k);
    }
}

/// The same holds of the directories on the way to a file.
pub proof fn one_symlink_above_is_enough_to_refuse(
    root: Seq<char>,
    path: SafeRelativePath,
    found: Seq<Found>,
    r: Result<(), StagingError>,
    k: int,
)
    requires
        parents_checked(root, path, found, r),
        0 <= k < found.len(),
    ensures
        found[k] is Symlink || found[k] is Unknown ==> r is Err,
        (forall|i: int|
            0 <= i < found.len() ==> (#[trigger] found[i]) is Nothing || found[i] is Real)
            ==> r is Ok,
        found[k] is Symlink && (forall|i: int|
            0 <= i < k ==> (#[trigger] found[i]) is Nothing || found[i] is Real) ==> (r matches Err(
            StagingError::UnsafePath { path: place, reason },
        ) && place@ == level(root, path.components().drop_last(), k) && reason@
            == "path component is a symlink"@),
{
    if r is Err && found[k] is Symlink && (forall|i: int|
        0 <= i < k ==> (#[trigger] found[i]) is Nothing || found[i] is Real) {
        the_first_bad_place_decides(root, path.components().drop_last(), found, r->Err_0, k);
    }
}

proof fn the_first_bad_place_decides(
    root: Seq<char>,
    names: Seq<Seq<char>>,
    found: Seq<Found>,
    error: StagingError,
    k: int,
)
    requires
        first_rejected(root, names, found, error),
        0 <= k < found.len(),
        forall|i: int| 0 <= i < k ==> (#[trigger] found[i]) is Nothing || found[i] is Real,
        found[k] is Symlink || found[k] is Unknown,
    ensures
        rejected(level(root, names, k), found[k], error),
{
    let i = choose|i: int|
        0 <= i < found.len() && way_is_clear(found.take(i)) && rejected(
            level(root, names, i),
            #[trigger] found[i],
            error,
        );
    if k < i {
        assert(found.take(i)[k] == found[k]);
    }
}

} // verus!
