//! How staged files are backed, and where they may live.

use vstd::prelude::*;
use vstd::string::*;

use crate::paths::{is_absolute, starts_with};
use crate::text::same;
use crate::torrent::SafeRelativePath;

verus! {

/// How a staged file is backed by the library file it came from.
#[derive(Clone, Copy, Debug, PartialEq, Eq, Structural)]
pub enum MaterializationStrategy {
    /// Copy-on-write clone. Costs no space and shares no fate: a write to the
    /// staged file allocates new extents and leaves the library file alone.
    /// Always preferred.
    Reflink,
    /// A second name for the *same inode*. Costs no space and shares every
    /// fate: anything that writes to the staged file writes to the library
    /// file. This is why an incomplete hardlinked torrent must never be
    /// resumed: the client would "repair" the user's media.
    Hardlink,
    /// An independent duplicate. Costs the full size, shares nothing.
    Copy,
}

impl MaterializationStrategy {
    /// Whether the staged file and the library file are the same bytes on disk,
    /// such that writing to one writes to the other.
    pub fn aliases_library_file(self) -> (r: bool)
        ensures
            r == (self is Hardlink),
    {
        matches!(self, MaterializationStrategy::Hardlink)
    }

    /// The name a strategy is stored under.
    pub open spec fn name(self) -> Seq<char> {
        match self {
            MaterializationStrategy::Reflink => "reflink"@,
            MaterializationStrategy::Hardlink => "hardlink"@,
            MaterializationStrategy::Copy => "copy"@,
        }
    }

    pub fn as_str(self) -> (r: &'static str)
        ensures
            r@ == self.name(),
    {
        match self {
            MaterializationStrategy::Reflink => "reflink",
            MaterializationStrategy::Hardlink => "hardlink",
            MaterializationStrategy::Copy => "copy",
        }
    }

    /// The name used in messages.
    pub open spec fn title(self) -> Seq<char> {
        match self {
            MaterializationStrategy::Reflink => "Reflink"@,
            MaterializationStrategy::Hardlink => "Hardlink"@,
            MaterializationStrategy::Copy => "Copy"@,
        }
    }

    pub fn to_title(self) -> (r: &'static str)
        ensures
            r@ == self.title(),
    {
        match self {
            MaterializationStrategy::Reflink => "Reflink",
            MaterializationStrategy::Hardlink => "Hardlink",
            MaterializationStrategy::Copy => "Copy",
        }
    }

    /// Read a strategy back from the name it is stored under.
    pub fn parse(value: &str) -> (r: Result<MaterializationStrategy, String>)
        ensures
            match r {
                Ok(strategy) => value@ == strategy.name(),
                Err(why) => {
                    &&& forall|strategy: MaterializationStrategy| value@ != #[trigger] strategy.name()
                    &&& why@ == "unknown materialization strategy `"@ + value@ + "`"@
                },
            },
            forall|strategy: MaterializationStrategy|
                value@ == #[trigger] strategy.name() ==> r == Ok::<MaterializationStrategy, String>(
                    strategy,
                ),
    {
        proof {
            strategy_names_are_distinct();
        }
        let found = if same(value, "reflink") {
            Some(MaterializationStrategy::Reflink)
        } else if same(value, "hardlink") {
            Some(MaterializationStrategy::Hardlink)
        } else if same(value, "copy") {
            Some(MaterializationStrategy::Copy)
        } else {
            None
        };
        match found {
            Some(strategy) => {
                assert(strategy.name() == value@);
                Ok(strategy)
            },
            None => {
                let mut why = "unknown materialization strategy `".to_owned();
                why.append(value);
                why.append("`");
                Err(why)
            },
        }
    }
}

/// No two strategies share a name.
pub proof fn strategy_names_are_distinct()
    ensures
        forall|a: MaterializationStrategy, b: MaterializationStrategy|
            #[trigger] a.name() == #[trigger] b.name() ==> a == b,
{
    reveal_strlit("reflink");
    reveal_strlit("hardlink");
    reveal_strlit("copy");
    assert forall|a: MaterializationStrategy, b: MaterializationStrategy|
        #[trigger] a.name() == #[trigger] b.name() implies a == b by {
        assert(a.name().len() == b.name().len());
    }
}

/// Whether reflink cloning works between one device and another, established
/// once per (source device, staging device) pair and cached, because a mounted
/// filesystem does not change its mind.
#[derive(Debug, PartialEq, Eq)]
pub enum ReflinkSupport {
    Supported,
    Unsupported { reason: String },
}

impl Clone for ReflinkSupport {
    fn clone(&self) -> (r: ReflinkSupport)
        ensures
            r == *self,
    {
        match self {
            ReflinkSupport::Supported => ReflinkSupport::Supported,
            ReflinkSupport::Unsupported { reason } => ReflinkSupport::Unsupported {
                reason: reason.clone(),
            },
        }
    }
}

#[derive(Debug, PartialEq, Eq)]
pub enum StagingRootError {
    /// staging root must be an absolute path
    NotAbsolute(String),
    /// the staging root cannot be used
    Unusable { path: String, reason: String },
    /// the staging root overlaps a media library root
    OverlapsLibrary { staging: String, library: String },
}

impl StagingRootError {
    /// The sentence shown for it.
    pub open spec fn sentence(self) -> Seq<char> {
        match self {
            StagingRootError::NotAbsolute(path) =>
                "staging root must be an absolute path, got "@ + path@,
            StagingRootError::Unusable { path, reason } => "cannot use staging root "@ + path@
                + ": "@ + reason@,
            StagingRootError::OverlapsLibrary { staging, library } => "staging root "@ + staging@
                + " overlaps media library root "@ + library@
                + "; staging must be a separate directory"@,
        }
    }

    pub fn message(&self) -> (r: String)
        ensures
            r@ == self.sentence(),
    {
        match self {
            StagingRootError::NotAbsolute(path) => {
                let mut out = "staging root must be an absolute path, got ".to_owned();
                out.append(path.as_str());
                out
            },
            StagingRootError::Unusable { path, reason } => {
                let mut out = "cannot use staging root ".to_owned();
                out.append(path.as_str());
                out.append(": ");
                out.append(reason.as_str());
                out
            },
            StagingRootError::OverlapsLibrary { staging, library } => {
                let mut out = "staging root ".to_owned();
                out.append(staging.as_str());
                out.append(" overlaps media library root ");
                out.append(library.as_str());
                out.append("; staging must be a separate directory");
                out
            },
        }
    }
}

/// One directory is the other, or lies inside it.
pub open spec fn overlap(a: Seq<char>, b: Seq<char>) -> bool {
    crate::paths::within(a, b) || crate::paths::within(b, a)
}

/// Overlapping goes both ways.
pub proof fn overlap_is_mutual(a: Seq<char>, b: Seq<char>)
    ensures
        overlap(a, b) == overlap(b, a),
{
}

/// The staging directory overlaps `libraries[i]`, and none before it.
pub open spec fn first_overlap(staging: Seq<char>, libraries: Seq<String>, i: int) -> bool {
    &&& 0 <= i < libraries.len()
    &&& overlap(staging, libraries[i]@)
    &&& forall|k: int| 0 <= k < i ==> !overlap(staging, (#[trigger] libraries[k])@)
}

/// The staging directory overlaps none of the libraries.
pub open spec fn separate(staging: Seq<char>, libraries: Seq<String>) -> bool {
    forall|k: int| 0 <= k < libraries.len() ==> !overlap(staging, (#[trigger] libraries[k])@)
}

/// There is one first overlap at most, and none where the staging directory is
/// separate.
pub proof fn the_first_overlap_is_one(staging: Seq<char>, libraries: Seq<String>)
    ensures
        forall|i: int, j: int|
            #[trigger] first_overlap(staging, libraries, i) && #[trigger] first_overlap(
                staging,
                libraries,
                j,
            ) ==> i == j,
        forall|i: int| #[trigger]
            first_overlap(staging, libraries, i) ==> !separate(staging, libraries),
{
    assert forall|i: int, j: int|
        #[trigger] first_overlap(staging, libraries, i) && #[trigger] first_overlap(
            staging,
            libraries,
            j,
        ) implies i == j by {
        if i < j {
            assert(!overlap(staging, libraries[i]@));
        }
        if j < i {
            assert(!overlap(staging, libraries[j]@));
        }
    }
}

/// The first library that the staging directory overlaps.
fn find_overlap(staging: &str, libraries: &Vec<String>) -> (r: Option<usize>)
    ensures
        match r {
            Some(i) => first_overlap(staging@, libraries@, i as int),
            None => separate(staging@, libraries@),
        },
{
    let mut i: usize = 0;
    while i < libraries.len()
        invariant
            i <= libraries@.len(),
            forall|k: int| 0 <= k < i ==> !overlap(staging@, (#[trigger] libraries@[k])@),
        decreases libraries@.len() - i,
    {
        if starts_with(staging, libraries[i].as_str()) || starts_with(
            libraries[i].as_str(),
            staging,
        ) {
            return Some(i);
        }
        i += 1;
    }
    None
}

/// How many names are taken off a path before something exists: as long as
/// nothing exists at what is left and there is a name to take off.
pub open spec fn missing_names(paths: Seq<Seq<char>>, existing: Seq<bool>) -> int
    decreases paths.len(),
{
    if paths.len() <= 1 || existing[0] || crate::paths::base_name(paths[0]) is None {
        0
    } else {
        1 + missing_names(paths.drop_first(), existing.drop_first())
    }
}

/// The names of the first `n` of the paths, outermost first.
pub open spec fn names_taken_off(paths: Seq<Seq<char>>, n: int) -> Seq<Seq<char>>
    decreases n,
{
    if n <= 0 {
        Seq::empty()
    } else {
        seq![crate::paths::base_name(paths[n - 1])->0] + names_taken_off(paths, n - 1)
    }
}

/// A path split where things begin to exist.
#[derive(Debug, PartialEq, Eq)]
pub struct SplitPath {
    /// The deepest part that exists.
    pub existing: String,
    /// What does not exist below it, outermost first.
    pub missing: Vec<String>,
}

proof fn missing_is_bounded(paths: Seq<Seq<char>>, existing: Seq<bool>)
    requires
        paths.len() > 0,
    ensures
        0 <= missing_names(paths, existing) < paths.len(),
        forall|i: int|
            0 <= i < missing_names(paths, existing) ==> crate::paths::base_name(
                #[trigger] paths[i],
            ) is Some,
    decreases paths.len(),
{
    if !(paths.len() <= 1 || existing[0] || crate::paths::base_name(paths[0]) is None) {
        let rest = paths.drop_first();
        missing_is_bounded(rest, existing.drop_first());
        assert forall|i: int| 0 <= i < missing_names(paths, existing) implies crate::paths::base_name(
            #[trigger] paths[i],
        ) is Some by {
            if i > 0 {
                assert(paths[i] == rest[i - 1]);
            }
        }
    }
}

/// Split a path where things begin to exist. `paths` are the path and the
/// directories above it, and `existing` says which of them exist.
pub fn split_existing(paths: &Vec<String>, existing: &Vec<bool>) -> (r: SplitPath)
    requires
        paths@.len() > 0,
        existing@.len() == paths@.len(),
    ensures
        ({
            let all = crate::text::texts(paths@);
            let n = missing_names(all, existing@);
            &&& r.existing@ == all[n]
            &&& crate::text::texts(r.missing@) == names_taken_off(all, n)
        }),
{
    let ghost all = crate::text::texts(paths@);
    let len: usize = paths.len();
    let mut n: usize = 0;
    let mut missing: Vec<String> = Vec::new();
    assert(all.skip(0) =~= all);
    assert(existing@.skip(0) =~= existing@);
    assert(crate::text::texts(missing@) =~= names_taken_off(all, 0));
    loop
        invariant
            n < len == paths@.len() == existing@.len(),
            all == crate::text::texts(paths@),
            missing_names(all, existing@) == n + missing_names(
                all.skip(n as int),
                existing@.skip(n as int),
            ),
            crate::text::texts(missing@) == names_taken_off(all, n as int),
        decreases len - n,
    {
        proof {
            assert(all.skip(n as int)[0] == paths@[n as int]@);
            assert(all.skip(n as int).drop_first() =~= all.skip(n + 1));
            assert(existing@.skip(n as int).drop_first() =~= existing@.skip(n + 1));
        }
        if n == len - 1 || existing[n] {
            return SplitPath { existing: paths[n].clone(), missing };
        }
        match crate::paths::file_name(paths[n].as_str()) {
            None => return SplitPath { existing: paths[n].clone(), missing },
            Some(name) => {
                let ghost before = crate::text::texts(missing@);
                let ghost added = name@;
                missing.insert(0, name);
                n += 1;
                assert(crate::text::texts(missing@) =~= seq![added] + before);
            },
        }
    }
}

/// Put back below a resolved directory what does not exist yet.
pub fn lexical_resolve(resolved: &str, missing: &Vec<String>) -> (r: String)
    ensures
        r@ == crate::staging::safety::level(
            resolved@,
            crate::text::texts(missing@),
            missing@.len() as int,
        ),
{
    let ghost names = crate::text::texts(missing@);
    let mut out = resolved.to_owned();
    let mut i: usize = 0;
    while i < missing.len()
        invariant
            i <= missing@.len(),
            names == crate::text::texts(missing@),
            out@ == crate::staging::safety::level(resolved@, names, i as int),
        decreases missing@.len() - i,
    {
        assert(names[i as int] == missing@[i as int]@);
        out = crate::staging::safety::descend(out.as_str(), missing[i].as_str());
        i += 1;
    }
    out
}

/// A validated directory that SeedMedic owns and may write to.
///
/// Validated once at startup so that no later code has to wonder whether the
/// place it is writing to is really the user's media library.
#[derive(Debug, PartialEq, Eq)]
pub struct StagingRoot(String);

impl View for StagingRoot {
    type V = Seq<char>;

    closed spec fn view(&self) -> Seq<char> {
        self.0@
    }
}

/// What validating the staging root comes to.
pub open spec fn root_validated(
    path: Seq<char>,
    prepared: Result<String, String>,
    libraries: Seq<String>,
    r: Result<StagingRoot, StagingRootError>,
) -> bool {
    match r {
        Ok(root) => {
            &&& crate::paths::absolute(path)
            &&& prepared matches Ok(staging) && root@ == staging@ && separate(staging@, libraries)
        },
        Err(StagingRootError::NotAbsolute(p)) => !crate::paths::absolute(path) && p@ == path,
        Err(StagingRootError::Unusable { path: p, reason }) => {
            &&& crate::paths::absolute(path)
            &&& p@ == path
            &&& prepared matches Err(why) && why@ == reason@
        },
        Err(StagingRootError::OverlapsLibrary { staging, library }) => {
            &&& crate::paths::absolute(path)
            &&& prepared matches Ok(s) && s@ == staging@ && exists|i: int|
                first_overlap(s@, libraries, i) && library@ == (#[trigger] libraries[i])@
        },
    }
}

/// What checking the overlap alone comes to.
pub open spec fn overlap_checked(
    path: Seq<char>,
    staging: Seq<char>,
    libraries: Seq<String>,
    r: Result<(), StagingRootError>,
) -> bool {
    match r {
        Ok(()) => crate::paths::absolute(path) && separate(staging, libraries),
        Err(StagingRootError::NotAbsolute(p)) => !crate::paths::absolute(path) && p@ == path,
        Err(StagingRootError::OverlapsLibrary { staging: s, library }) => {
            &&& crate::paths::absolute(path)
            &&& s@ == staging
            &&& exists|i: int|
                first_overlap(staging, libraries, i) && library@ == (#[trigger] libraries[i])@
        },
        Err(StagingRootError::Unusable { .. }) => false,
    }
}

impl StagingRoot {
    /// Validate the staging root.
    ///
    /// `prepared` is what creating the directory and resolving it came to: the
    /// resolved path, or why it cannot be used. `libraries` are the library
    /// roots that exist, resolved; one that does not exist cannot be
    /// overlapped, and is the candidate source's problem to report.
    ///
    /// Fails if the path is not absolute, could not be created, or overlaps
    /// any media library root in either direction.
    pub fn new(path: &str, prepared: Result<String, String>, libraries: &Vec<String>) -> (r: Result<
        StagingRoot,
        StagingRootError,
    >)
        ensures
            root_validated(path@, prepared, libraries@, r),
    {
        if !is_absolute(path) {
            return Err(StagingRootError::NotAbsolute(path.to_owned()));
        }
        match prepared {
            Err(reason) => Err(StagingRootError::Unusable { path: path.to_owned(), reason }),
            Ok(staging) => match find_overlap(staging.as_str(), libraries) {
                Some(i) => {
                    let library = libraries[i].clone();
                    assert(first_overlap(staging@, libraries@, i as int) && library@
                        == libraries@[i as int]@);
                    Err(StagingRootError::OverlapsLibrary { staging, library })
                },
                None => Ok(StagingRoot(staging)),
            },
        }
    }

    pub fn path(&self) -> (r: &str)
        ensures
            r@ == self@,
    {
        self.0.as_str()
    }

    /// Checks the overlap invariant without creating or writing anything.
    /// `staging` and `libraries` are the paths resolved as far as they exist.
    pub fn check_overlap(path: &str, staging: &str, libraries: &Vec<String>) -> (r: Result<
        (),
        StagingRootError,
    >)
        ensures
            overlap_checked(path@, staging@, libraries@, r),
    {
        if !is_absolute(path) {
            return Err(StagingRootError::NotAbsolute(path.to_owned()));
        }
        match find_overlap(staging, libraries) {
            Some(i) => {
                let library = libraries[i].clone();
                assert(first_overlap(staging@, libraries@, i as int) && library@
                    == libraries@[i as int]@);
                Err(StagingRootError::OverlapsLibrary { staging: staging.to_owned(), library })
            },
            None => Ok(()),
        }
    }
}

/// One file to materialise: read `source`, produce `destination` under the
/// job's staging directory.
#[derive(Debug, PartialEq, Eq)]
pub struct PlanItem {
    pub source: String,
    /// Relative to the staging root, job directory included.
    pub destination: SafeRelativePath,
    /// The size the torrent expects. Re-checked against `source` immediately
    /// before materialising, because the library may have changed since
    /// matching.
    pub length: u64,
    /// What the job row says an earlier attempt used, if this file was
    /// already staged once. It is trusted over anything derived from the file
    /// found on disk: reflinks are not detectable portably, and guessing would
    /// risk reporting a safer strategy than what is really there. `None` when
    /// nothing has staged this file yet.
    pub previous_strategy: Option<MaterializationStrategy>,
}

impl Clone for PlanItem {
    fn clone(&self) -> (r: PlanItem)
        ensures
            r == *self,
    {
        PlanItem {
            source: self.source.clone(),
            destination: self.destination.clone(),
            length: self.length,
            previous_strategy: self.previous_strategy,
        }
    }
}

#[derive(Debug, PartialEq, Eq)]
pub struct MaterializationPlan {
    pub items: Vec<PlanItem>,
}

#[derive(Debug, PartialEq, Eq)]
pub struct StagedFile {
    pub path: SafeRelativePath,
    pub strategy: MaterializationStrategy,
    pub bytes: u64,
}

/// What ended up on disk.
#[derive(Debug, PartialEq, Eq)]
pub struct StagedLayout {
    pub files: Vec<StagedFile>,
    /// The reflink probe outcome for this plan's (source device, staging
    /// device) pair, so a job's audit trail can say why reflink was or was not
    /// used. `None` when nothing in the plan asked for reflink.
    pub reflink: Option<ReflinkSupport>,
}

/// Some file of the layout got that strategy.
pub open spec fn some_file_is(files: Seq<StagedFile>, strategy: MaterializationStrategy) -> bool {
    exists|i: int| 0 <= i < files.len() && (#[trigger] files[i]).strategy == strategy
}

/// The bytes of all files together.
pub open spec fn bytes_of(files: Seq<StagedFile>) -> int
    decreases files.len(),
{
    if files.len() == 0 {
        0
    } else {
        bytes_of(files.drop_last()) + files.last().bytes
    }
}

impl StagedLayout {
    fn uses(&self, strategy: MaterializationStrategy) -> (r: bool)
        ensures
            r == some_file_is(self.files@, strategy),
    {
        let mut i: usize = 0;
        while i < self.files.len()
            invariant
                i <= self.files@.len(),
                forall|k: int| 0 <= k < i ==> (#[trigger] self.files@[k]).strategy != strategy,
            decreases self.files@.len() - i,
        {
            if self.files[i].strategy == strategy {
                return true;
            }
            i += 1;
        }
        false
    }

    /// True if any file shares an inode with the media library. The resume
    /// guard in the repair policy keys off this.
    pub fn aliases_library_files(&self) -> (r: bool)
        ensures
            r == some_file_is(self.files@, MaterializationStrategy::Hardlink),
    {
        self.uses(MaterializationStrategy::Hardlink)
    }

    /// The riskiest strategy that was used.
    pub open spec fn riskiest(self) -> Option<MaterializationStrategy> {
        if some_file_is(self.files@, MaterializationStrategy::Hardlink) {
            Some(MaterializationStrategy::Hardlink)
        } else if some_file_is(self.files@, MaterializationStrategy::Copy) {
            Some(MaterializationStrategy::Copy)
        } else if self.files@.len() > 0 {
            Some(MaterializationStrategy::Reflink)
        } else {
            None
        }
    }

    /// The single strategy recorded on the job: the riskiest one used, because
    /// safety decisions must be driven by the worst file, not the average.
    pub fn summary_strategy(&self) -> (r: Option<MaterializationStrategy>)
        ensures
            r == self.riskiest(),
    {
        if self.uses(MaterializationStrategy::Hardlink) {
            return Some(MaterializationStrategy::Hardlink);
        }
        if self.uses(MaterializationStrategy::Copy) {
            return Some(MaterializationStrategy::Copy);
        }
        if self.files.len() > 0 {
            let first = self.files[0].strategy;
            assert(self.files@[0].strategy == first);
            Some(first)
        } else {
            None
        }
    }

    pub fn total_bytes(&self) -> (r: u64)
        requires
            bytes_of(self.files@) <= u64::MAX,
        ensures
            r == bytes_of(self.files@),
    {
        let mut total: u64 = 0;
        let mut i: usize = 0;
        while i < self.files.len()
            invariant
                i <= self.files@.len(),
                total == bytes_of(self.files@.take(i as int)),
                bytes_of(self.files@) <= u64::MAX,
            decreases self.files@.len() - i,
        {
            proof {
                assert(self.files@.take(i + 1).drop_last() =~= self.files@.take(i as int));
                bytes_grow(self.files@, i + 1);
            }
            total = total + self.files[i].bytes;
            i += 1;
        }
        assert(self.files@.take(i as int) =~= self.files@);
        total
    }
}

proof fn bytes_grow(files: Seq<StagedFile>, n: int)
    requires
        0 <= n <= files.len(),
    ensures
        0 <= bytes_of(files.take(n)) <= bytes_of(files),
    decreases files.len(),
{
    if n < files.len() {
        bytes_grow(files.drop_last(), n);
        assert(files.drop_last().take(n) =~= files.take(n));
    } else {
        assert(files.take(n) =~= files);
        if files.len() > 0 {
            bytes_grow(files.drop_last(), files.len() - 1);
        }
    }
}

/// A layout aliases the library exactly when the strategy recorded for it
/// does, so the recorded strategy never hides a hardlinked file.
pub proof fn summary_never_hides_a_hardlink(layout: StagedLayout)
    ensures
        layout.riskiest() == Some(MaterializationStrategy::Hardlink) <==> some_file_is(
            layout.files@,
            MaterializationStrategy::Hardlink,
        ),
{
}

/// Whether a job's staging directory still holds what we think it holds.
#[derive(Clone, Copy, Debug, PartialEq, Eq, Structural)]
pub enum StagingPresence {
    Absent,
    Incomplete { present: usize, expected: usize },
    Complete,
}

/// A directory is accepted as the staging root exactly where its path is
/// absolute, it could be prepared, and neither it nor any library lies at or
/// below the other. A check alone comes to the same.
pub proof fn staging_keeps_out_of_the_library(
    path: Seq<char>,
    prepared: Result<String, String>,
    libraries: Seq<String>,
    r: Result<StagingRoot, StagingRootError>,
    checked: Result<(), StagingRootError>,
)
    requires
        root_validated(path, prepared, libraries, r),
        prepared matches Ok(staging) ==> overlap_checked(path, staging@, libraries, checked),
    ensures
        r is Ok <==> {
            &&& path.len() > 0 && path[0] == '/'
            &&& prepared matches Ok(staging)
            &&& forall|k: int|
                0 <= k < libraries.len() ==> {
                    &&& !crate::paths::components(staging@).is_prefix_of(
                        crate::paths::components((#[trigger] libraries[k])@),
                    )
                    &&& !crate::paths::components(libraries[k]@).is_prefix_of(
                        crate::paths::components(staging@),
                    )
                }
        },
        prepared is Ok ==> (checked is Ok <==> r is Ok),
        r matches Ok(root) ==> root@ == prepared->Ok_0@,
{
}

/// The strategy recorded for a layout is the riskiest of its files: a hardlink
/// where there is one, else a copy where there is one, else a reflink; and nothing
/// where there is no file.
pub proof fn the_riskiest_file_decides(layout: StagedLayout)
    ensures
        layout.riskiest() matches Some(strategy) ==> exists|i: int|
            0 <= i < layout.files@.len() && (#[trigger] layout.files@[i]).strategy == strategy,
        layout.riskiest() is None <==> layout.files@.len() == 0,
        forall|i: int|
            0 <= i < layout.files@.len() ==> match (#[trigger] layout.files@[i]).strategy {
                MaterializationStrategy::Hardlink => layout.riskiest()->0 is Hardlink,
                MaterializationStrategy::Copy => layout.riskiest()->0 !is Reflink,
                MaterializationStrategy::Reflink => true,
            },
{
    if layout.riskiest() == Some(MaterializationStrategy::Reflink) {
        assert(layout.files@[0].strategy is Reflink);
    }
}

/// A layout is as large as its files together.
pub proof fn a_layout_adds_up(files: Seq<StagedFile>, more: StagedFile)
    ensures
        bytes_of(Seq::empty()) == 0,
        bytes_of(files.push(more)) == bytes_of(files) + more.bytes,
{
    assert(files.push(more).drop_last() =~= files);
}

/// Nothing exists at what is taken off a path, something does at what is left,
/// unless there is nothing more to take off, and the names taken off are those of
/// the paths they were taken from, outermost first.
pub proof fn a_path_is_split_where_things_begin_to_exist(
    paths: Seq<Seq<char>>,
    existing: Seq<bool>,
)
    requires
        paths.len() > 0,
        existing.len() == paths.len(),
    ensures
        ({
            let n = missing_names(paths, existing);
            &&& 0 <= n < paths.len()
            &&& forall|i: int| 0 <= i < n ==> !(#[trigger] existing[i])
            &&& n < paths.len() - 1 ==> existing[n] || crate::paths::base_name(paths[n]) is None
            &&& names_taken_off(paths, n).len() == n
            &&& forall|k: int|
                0 <= k < n ==> Some(#[trigger] names_taken_off(paths, n)[k])
                    == crate::paths::base_name(paths[n - 1 - k])
        }),
    decreases paths.len(),
{
    let n = missing_names(paths, existing);
    missing_is_bounded(paths, existing);
    taken_off_in_order(paths, n);
    if !(paths.len() <= 1 || existing[0] || crate::paths::base_name(paths[0]) is None) {
        let rest = existing.drop_first();
        a_path_is_split_where_things_begin_to_exist(paths.drop_first(), rest);
        assert forall|i: int| 0 <= i < n implies !(#[trigger] existing[i]) by {
            if i > 0 {
                assert(rest[i - 1] == existing[i]);
            }
        }
        assert(rest[n - 1] == existing[n]);
        assert(paths.drop_first()[n - 1] == paths[n]);
    }
}

proof fn taken_off_in_order(paths: Seq<Seq<char>>, n: int)
    requires
        0 <= n <= paths.len(),
        forall|i: int| 0 <= i < n ==> crate::paths::base_name(#[trigger] paths[i]) is Some,
    ensures
        names_taken_off(paths, n).len() == n,
        forall|k: int|
            0 <= k < n ==> Some(#[trigger] names_taken_off(paths, n)[k]) == crate::paths::base_name(
                paths[n - 1 - k],
            ),
    decreases n,
{
    if n > 0 {
        taken_off_in_order(paths, n - 1);
        assert forall|k: int| 0 <= k < n implies Some(#[trigger] names_taken_off(paths, n)[k])
            == crate::paths::base_name(paths[n - 1 - k]) by {
            if k > 0 {
                assert(names_taken_off(paths, n)[k] == names_taken_off(paths, n - 1)[k - 1]);
            }
        }
    }
}

} // verus!
