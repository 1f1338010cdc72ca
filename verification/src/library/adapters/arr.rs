//! Sonarr and Radarr candidate discovery.
//!
//! Both APIs support parsing a release name into the series or movie it
//! belongs to, then listing that title's imported files. The two differ in
//! endpoint names and response shapes but not in structure, so one adapter
//! serves both.
//!
//! Targets the third generation of both APIs. Read-only: nothing here ever
//! asks for anything but to be told something.

use vstd::prelude::*;
use vstd::string::*;

use crate::library::{Candidate, CandidateError, CandidateOrigin, CandidateQuery};
use crate::paths::{is_absolute, parts, starts_with};
use crate::text::{chars_of, decimal_of, join, push_text, same, split};
use crate::urls::{build_request_url, MAX_URL_CHARS};

verus! {

#[derive(Clone, Copy, Debug, PartialEq, Eq, Structural)]
pub enum ArrKind {
    Sonarr,
    Radarr,
}

impl ArrKind {
    /// The name in the configuration and in the audit trail.
    pub open spec fn name(self) -> Seq<char> {
        match self {
            ArrKind::Sonarr => "sonarr"@,
            ArrKind::Radarr => "radarr"@,
        }
    }

    pub fn as_str(self) -> (r: &'static str)
        ensures
            r@ == self.name(),
    {
        match self {
            ArrKind::Sonarr => "sonarr",
            ArrKind::Radarr => "radarr",
        }
    }
}

/// Rewrites a path as the *arr's container sees it (`/tv/Show/...`) to the
/// path SeedMedic sees (`/srv/media/tv/Show/...`).
#[derive(Debug, PartialEq, Eq)]
pub struct PathMapping {
    pub from: String,
    pub to: String,
}

/// A path below a directory; an absolute one stands for itself.
pub open spec fn joined_path(dir: Seq<char>, rest: Seq<char>) -> Seq<char> {
    if crate::paths::absolute(rest) {
        rest
    } else {
        crate::torrent::path::below(dir, rest)
    }
}

/// The fields behind the first names.
pub open spec fn behind_names(fields: Seq<Seq<char>>, count: int) -> Seq<Seq<char>>
    decreases fields.len(),
{
    if count <= 0 || fields.len() == 0 {
        fields
    } else if crate::paths::is_name(fields[0]) {
        behind_names(fields.drop_first(), count - 1)
    } else {
        behind_names(fields.drop_first(), count)
    }
}

/// The fields from the first name on.
pub open spec fn from_first_name(fields: Seq<Seq<char>>) -> Seq<Seq<char>>
    decreases fields.len(),
{
    if fields.len() == 0 || crate::paths::is_name(fields[0]) {
        fields
    } else {
        from_first_name(fields.drop_first())
    }
}

/// The fields up to the last name.
pub open spec fn to_last_name(fields: Seq<Seq<char>>) -> Seq<Seq<char>>
    decreases fields.len(),
{
    if fields.len() == 0 || crate::paths::is_name(fields.last()) {
        fields
    } else {
        to_last_name(fields.drop_last())
    }
}

/// What is left of a path behind a directory, as it stands there: from the first
/// name behind the directory to the last name. Behind no directory at all, that
/// is the path without separators at its end.
pub open spec fn rest_behind(path: Seq<char>, dir: Seq<char>) -> Seq<char> {
    let fields = crate::text::fields(path, '/');
    let lead = crate::paths::lead(path);
    if crate::paths::components(dir).len() > 0 {
        crate::text::joined(
            to_last_name(
                from_first_name(
                    behind_names(fields, crate::paths::components(dir).len() - lead.len()),
                ),
            ),
            '/',
        )
    } else if crate::paths::names(path).len() > 0 {
        crate::text::joined(to_last_name(fields), '/')
    } else if lead.len() > 0 {
        lead[0]
    } else {
        Seq::empty()
    }
}

/// The path as it is seen here: rewritten by the first mapping that it lies
/// under, and otherwise as it was reported.
pub open spec fn mapped(mappings: Seq<PathMapping>, reported: Seq<char>) -> Seq<char>
    decreases mappings.len(),
{
    if mappings.len() == 0 {
        reported
    } else if crate::paths::within(reported, mappings[0].from@) {
        joined_path(mappings[0].to@, rest_behind(reported, mappings[0].from@))
    } else {
        mapped(mappings.drop_first(), reported)
    }
}

/// A file that an *arr lists.
#[derive(Debug, PartialEq, Eq)]
pub struct ArrFile {
    /// The season, for an episode.
    pub season: Option<i32>,
    pub path: String,
    pub size: u64,
}

/// A file on disk that a listed one should be.
#[derive(Debug, PartialEq, Eq)]
pub struct Reported {
    pub path: String,
    pub size: u64,
}

/// The file belongs to the season that is looked for, if one is.
pub open spec fn in_season(file: ArrFile, season: Option<i32>) -> bool {
    season is Some && file.season is Some ==> season == file.season
}

/// One *arr instance.
#[derive(Debug)]
pub struct ArrCandidateSource {
    pub label: String,
    pub kind: ArrKind,
    pub instance: String,
    pub base_url: String,
    pub path_mappings: Vec<PathMapping>,
}

impl Clone for PathMapping {
    fn clone(&self) -> (r: PathMapping)
        ensures
            r == *self,
    {
        PathMapping { from: self.from.clone(), to: self.to.clone() }
    }
}

impl Clone for ArrCandidateSource {
    fn clone(&self) -> (r: ArrCandidateSource)
        ensures
            r.label == self.label,
            r.kind == self.kind,
            r.instance == self.instance,
            r.base_url == self.base_url,
            r.path_mappings@ == self.path_mappings@,
    {
        let mut path_mappings: Vec<PathMapping> = Vec::new();
        let mut i: usize = 0;
        while i < self.path_mappings.len()
            invariant
                i <= self.path_mappings@.len(),
                path_mappings@ =~= self.path_mappings@.take(i as int),
            decreases self.path_mappings@.len() - i,
        {
            path_mappings.push(self.path_mappings[i].clone());
            i += 1;
        }
        assert(self.path_mappings@.take(i as int) =~= self.path_mappings@);
        ArrCandidateSource {
            label: self.label.clone(),
            kind: self.kind,
            instance: self.instance.clone(),
            base_url: self.base_url.clone(),
            path_mappings,
        }
    }
}

/// What building a request URL comes to.
pub fn request_or_error(built: Result<String, String>) -> (r: Result<String, CandidateError>)
    ensures
        match (built, r) {
            (Ok(url), Ok(text)) => text == url,
            (Err(why), Err(CandidateError::Protocol(message))) => message@
                == "cannot build request URL: "@ + why@,
            _ => false,
        },
{
    match built {
        Ok(url) => Ok(url),
        Err(why) => {
            let mut message = "cannot build request URL: ".to_owned();
            message.append(why.as_str());
            Err(CandidateError::Protocol(message))
        },
    }
}

/// The request goes to that URL, or cannot be built.
pub open spec fn asks(
    r: Result<String, CandidateError>,
    base: Seq<char>,
    path: Seq<char>,
    name: Seq<char>,
    value: Seq<char>,
) -> bool {
    match (crate::urls::request_url(base, path, name, value), r) {
        (Ok(url), Ok(text)) => text@ == url,
        (Err(why), Err(CandidateError::Protocol(message))) => message@
            == "cannot build request URL: "@ + why,
        _ => false,
    }
}

/// What an *arr's reply comes to.
pub open spec fn reply_judged(label: Seq<char>, status: u16, shown: Seq<char>, r: Result<(), CandidateError>) -> bool {
    if 200 <= status < 300 {
        r is Ok
    } else if status == 401 || status == 403 {
        r matches Err(CandidateError::Protocol(message)) && message@ == label
            + " rejected the configured API key"@
    } else if 500 <= status < 600 {
        r matches Err(CandidateError::Transport(message)) && message@ == label
            + " returned status "@ + shown
    } else {
        r matches Err(CandidateError::Protocol(message)) && message@ == label
            + " returned status "@ + shown
    }
}

impl ArrCandidateSource {
    pub fn new(kind: ArrKind, instance: &str, base_url: &str, path_mappings: Vec<PathMapping>) -> (r:
        ArrCandidateSource)
        ensures
            r.label@ == kind.name() + ":"@ + instance@,
            r.kind == kind,
            r.instance@ == instance@,
            r.base_url@ == base_url@,
            r.path_mappings == path_mappings,
    {
        let mut label = kind.as_str().to_owned();
        label.append(":");
        label.append(instance);
        ArrCandidateSource {
            label,
            kind,
            instance: instance.to_owned(),
            base_url: base_url.to_owned(),
            path_mappings,
        }
    }

    /// Where the candidates of this source come from.
    pub open spec fn stands_for(self, origin: CandidateOrigin) -> bool {
        match (self.kind, origin) {
            (ArrKind::Sonarr, CandidateOrigin::Sonarr { instance }) => instance@ == self.instance@,
            (ArrKind::Radarr, CandidateOrigin::Radarr { instance }) => instance@ == self.instance@,
            _ => false,
        }
    }

    pub fn origin(&self) -> (r: CandidateOrigin)
        ensures
            self.stands_for(r),
    {
        match self.kind {
            ArrKind::Sonarr => CandidateOrigin::Sonarr { instance: self.instance.clone() },
            ArrKind::Radarr => CandidateOrigin::Radarr { instance: self.instance.clone() },
        }
    }

    /// Where to ask which series or movie a release belongs to.
    pub fn parse_url(&self, query: &CandidateQuery) -> (r: Result<String, CandidateError>)
        requires
            self.base_url@.len() + query.torrent_name@.len() + 32 <= MAX_URL_CHARS,
        ensures
            asks(r, self.base_url@, "api/v3/parse"@, "title"@, query.torrent_name@),
    {
        proof {
            reveal_strlit("api/v3/parse");
            reveal_strlit("title");
        }
        request_or_error(
            build_request_url(
                self.base_url.as_str(),
                "api/v3/parse",
                "title",
                query.torrent_name.as_str(),
            ),
        )
    }

    /// Where to ask for the files of a series or movie.
    pub fn files_url(&self, id: u64) -> (r: Result<String, CandidateError>)
        requires
            self.base_url@.len() + 64 <= MAX_URL_CHARS,
        ensures
            asks(
                r,
                self.base_url@,
                match self.kind {
                    ArrKind::Sonarr => "api/v3/episodefile"@,
                    ArrKind::Radarr => "api/v3/moviefile"@,
                },
                match self.kind {
                    ArrKind::Sonarr => "seriesId"@,
                    ArrKind::Radarr => "movieId"@,
                },
                crate::text::decimal(id as nat),
            ),
    {
        proof {
            reveal_strlit("api/v3/episodefile");
            reveal_strlit("api/v3/moviefile");
            reveal_strlit("seriesId");
            reveal_strlit("movieId");
            assert(crate::text::ten_to(20) == 100_000_000_000_000_000_000) by {
                reveal_with_fuel(crate::text::ten_to, 21);
            }
            crate::text::decimal_len_bound(id as nat, 20);
        }
        let value = decimal_of(id as u128);
        let (path, name) = match self.kind {
            ArrKind::Sonarr => ("api/v3/episodefile", "seriesId"),
            ArrKind::Radarr => ("api/v3/moviefile", "movieId"),
        };
        request_or_error(
            build_request_url(self.base_url.as_str(), path, name, value.as_str()),
        )
    }

    /// What a reply with that status comes to. `shown` is the status as it is
    /// shown. The API key stands in none of the messages.
    pub fn judge_reply(&self, status: u16, shown: &str) -> (r: Result<(), CandidateError>)
        ensures
            reply_judged(self.label@, status, shown@, r),
    {
        if 200 <= status && status < 300 {
            return Ok(());
        }
        let mut message = self.label.clone();
        if status == 401 || status == 403 {
            message.append(" rejected the configured API key");
            return Err(CandidateError::Protocol(message));
        }
        message.append(" returned status ");
        message.append(shown);
        if 500 <= status && status < 600 {
            Err(CandidateError::Transport(message))
        } else {
            Err(CandidateError::Protocol(message))
        }
    }

    /// The path as it is seen here.
    pub fn map_path(&self, reported: &str) -> (r: String)
        ensures
            r@ == mapped(self.path_mappings@, reported@),
    {
        let ghost all = self.path_mappings@;
        assert(all.skip(0) =~= all);
        let mut i: usize = 0;
        while i < self.path_mappings.len()
            invariant
                i <= all.len(),
                all == self.path_mappings@,
                mapped(all, reported@) == mapped(all.skip(i as int), reported@),
            decreases all.len() - i,
        {
            proof {
                assert(all.skip(i as int).drop_first() =~= all.skip(i + 1));
            }
            if starts_with(reported, self.path_mappings[i].from.as_str()) {
                let rest = behind(reported, self.path_mappings[i].from.as_str());
                return path_below(self.path_mappings[i].to.as_str(), rest.as_str());
            }
            i += 1;
        }
        reported.to_owned()
    }

    /// What to look for on disk, of the files that the *arr lists.
    pub fn files_to_look_for(&self, files: &Vec<ArrFile>, season: Option<i32>) -> (r: Vec<Reported>)
        ensures
            ({
                let chosen = files@.filter(|file: ArrFile| in_season(file, season));
                &&& r@.len() == chosen.len()
                &&& forall|i: int|
                    0 <= i < chosen.len() ==> (#[trigger] r@[i]).path@ == mapped(
                        self.path_mappings@,
                        chosen[i].path@,
                    ) && r@[i].size == chosen[i].size
            }),
    {
        let ghost keep = |file: ArrFile| in_season(file, season);
        let mut out: Vec<Reported> = Vec::new();
        let mut i: usize = 0;
        proof {
            reveal(Seq::filter);
            assert(files@.take(0).filter(keep).len() == 0);
        }
        while i < files.len()
            invariant
                i <= files@.len(),
                keep == (|file: ArrFile| in_season(file, season)),
                out@.len() == files@.take(i as int).filter(keep).len(),
                forall|k: int|
                    0 <= k < out@.len() ==> (#[trigger] out@[k]).path@ == mapped(
                        self.path_mappings@,
                        files@.take(i as int).filter(keep)[k].path@,
                    ) && out@[k].size == files@.take(i as int).filter(keep)[k].size,
            decreases files@.len() - i,
        {
            proof {
                assert(files@.take(i + 1).drop_last() =~= files@.take(i as int));
                assert(files@.take(i + 1).last() == files@[i as int]);
                reveal(Seq::filter);
            }
            let ghost before = files@.take(i as int).filter(keep);
            let other_season: bool = match (season, files[i].season) {
                (Some(wanted), Some(has)) => wanted != has,
                _ => false,
            };
            if !other_season {
                assert(keep(files@[i as int]));
                assert(files@.take(i + 1).filter(keep) == before.push(files@[i as int]));
                out.push(
                    Reported {
                        path: self.map_path(files[i].path.as_str()),
                        size: files[i].size,
                    },
                );
            } else {
                assert(!keep(files@[i as int]));
            }
            i += 1;
        }
        assert(files@.take(i as int) =~= files@);
        out
    }

    /// The candidates among the files looked for. `found` is the length of each
    /// of them on disk, where it is there. A candidate we cannot open is worse
    /// than no candidate: only one that is there with the reported size counts.
    pub fn candidates(&self, looked: &Vec<Reported>, found: &Vec<Option<u64>>) -> (r: Vec<Candidate>)
        requires
            found@.len() == looked@.len(),
        ensures
            ({
                let there = confirmed(looked@, found@);
                &&& r@.len() == there.len()
                &&& forall|i: int|
                    0 <= i < r@.len() ==> (#[trigger] r@[i]).path@ == there[i].path@
                        && r@[i].size_bytes == there[i].size && self.stands_for(r@[i].origin)
            }),
    {
        let mut out: Vec<Candidate> = Vec::new();
        let mut i: usize = 0;
        while i < looked.len()
            invariant
                i <= looked@.len() == found@.len(),
                ({
                    let there = confirmed(looked@.take(i as int), found@.take(i as int));
                    &&& out@.len() == there.len()
                    &&& forall|k: int|
                        0 <= k < out@.len() ==> (#[trigger] out@[k]).path@ == there[k].path@
                            && out@[k].size_bytes == there[k].size && self.stands_for(
                            out@[k].origin,
                        )
                }),
            decreases looked@.len() - i,
        {
            proof {
                assert(looked@.take(i + 1).drop_last() =~= looked@.take(i as int));
                assert(found@.take(i + 1).drop_last() =~= found@.take(i as int));
            }
            let there: bool = match found[i] {
                Some(length) => length == looked[i].size,
                None => false,
            };
            if there {
                out.push(
                    Candidate {
                        path: looked[i].path.clone(),
                        size_bytes: looked[i].size,
                        origin: self.origin(),
                    },
                );
            }
            i += 1;
        }
        assert(looked@.take(i as int) =~= looked@);
        assert(found@.take(i as int) =~= found@);
        out
    }
}

/// The files that are there with the reported size.
pub open spec fn confirmed(looked: Seq<Reported>, found: Seq<Option<u64>>) -> Seq<Reported>
    decreases looked.len(),
{
    if looked.len() == 0 {
        Seq::empty()
    } else {
        let before = confirmed(looked.drop_last(), found.drop_last());
        if found.last() == Some(looked.last().size) {
            before.push(looked.last())
        } else {
            before
        }
    }
}

fn names_something(field: &str) -> (r: bool)
    ensures
        r == crate::paths::is_name(field@),
{
    !field.is_empty() && !same(field, ".")
}

/// The fields from one on, up to the last name, with separators between them.
fn joined_from(all: &Vec<String>, start: usize) -> (r: String)
    requires
        start <= all@.len(),
    ensures
        r@ == crate::text::joined(
            to_last_name(crate::text::texts(all@).skip(start as int)),
            '/',
        ),
{
    let ghost fields = crate::text::texts(all@);
    let mut end: usize = all.len();
    assert(fields.subrange(start as int, end as int) =~= fields.skip(start as int));
    while end > start && !names_something(all[end - 1].as_str())
        invariant
            start <= end <= all@.len(),
            fields == crate::text::texts(all@),
            to_last_name(fields.skip(start as int)) == to_last_name(
                fields.subrange(start as int, end as int),
            ),
        decreases end,
    {
        assert(fields.subrange(start as int, end as int).drop_last() =~= fields.subrange(
            start as int,
            end - 1,
        ));
        assert(fields.subrange(start as int, end as int).last() == all@[end - 1]@);
        end = end - 1;
    }
    let mut kept: Vec<String> = Vec::new();
    let mut i: usize = start;
    while i < end
        invariant
            start <= i <= end <= all@.len(),
            fields == crate::text::texts(all@),
            crate::text::texts(kept@) =~= fields.subrange(start as int, i as int),
        decreases end - i,
    {
        push_text(&mut kept, all[i].as_str());
        assert(fields.subrange(start as int, i + 1) =~= fields.subrange(
            start as int,
            i as int,
        ).push(all@[i as int]@));
        i += 1;
    }
    proof {
        let rest = fields.subrange(start as int, end as int);
        if end > start {
            assert(rest.last() == all@[end - 1]@);
        }
        assert(to_last_name(rest) == rest);
    }
    join(kept.as_slice(), '/')
}

fn behind(path: &str, dir: &str) -> (r: String)
    requires
        crate::paths::within(path@, dir@),
    ensures
        r@ == rest_behind(path@, dir@),
{
    let whole = parts(path);
    let front = parts(dir);
    let ghost fields = crate::text::fields(path@, '/');
    let ghost lead = crate::paths::lead(path@);
    let all = split(path, '/');
    assert(fields.len() > 0) by {
        crate::text::fields_hold_no_separator(path@, '/');
    }
    assert(fields[0] == all@[0]@);
    let led: bool = is_absolute(path) || same(all[0].as_str(), ".");
    let led_by: usize = if led {
        1
    } else {
        0
    };
    assert(led_by == lead.len());
    if front.len() == 0 {
        assert(fields.skip(0) =~= fields);
        return if whole.len() > led_by {
            joined_from(&all, 0)
        } else if led {
            assert(crate::text::texts(whole@)[0] == lead[0]);
            whole[0].clone()
        } else {
            String::new()
        };
    }
    assert(led_by <= front@.len());
    let count: usize = front.len() - led_by;
    let mut left: usize = count;
    let mut i: usize = 0;
    assert(fields.skip(0) =~= fields);
    while i < all.len() && left > 0
        invariant
            i <= all@.len(),
            fields == crate::text::texts(all@),
            behind_names(fields, count as int) == behind_names(
                fields.skip(i as int),
                left as int,
            ),
        decreases all@.len() - i,
    {
        assert(fields.skip(i as int)[0] == all@[i as int]@);
        assert(fields.skip(i as int).drop_first() =~= fields.skip(i + 1));
        if names_something(all[i].as_str()) {
            left = left - 1;
        }
        i += 1;
    }
    let ghost rest = behind_names(fields, count as int);
    assert(rest == fields.skip(i as int));
    while i < all.len() && !names_something(all[i].as_str())
        invariant
            i <= all@.len(),
            fields == crate::text::texts(all@),
            from_first_name(rest) == from_first_name(fields.skip(i as int)),
        decreases all@.len() - i,
    {
        assert(fields.skip(i as int)[0] == all@[i as int]@);
        assert(fields.skip(i as int).drop_first() =~= fields.skip(i + 1));
        i += 1;
    }
    proof {
        if i < all@.len() {
            assert(fields.skip(i as int)[0] == all@[i as int]@);
        }
        assert(from_first_name(fields.skip(i as int)) == fields.skip(i as int));
    }
    joined_from(&all, i)
}

fn path_below(dir: &str, rest: &str) -> (r: String)
    ensures
        r@ == joined_path(dir@, rest@),
{
    if is_absolute(rest) {
        return rest.to_owned();
    }
    let chars = chars_of(dir);
    let mut out = dir.to_owned();
    if chars.len() > 0 && chars[chars.len() - 1] != '/' {
        out.push('/');
    }
    out.append(rest);
    proof {
        assert(out@ =~= joined_path(dir@, rest@));
    }
    out
}

/// Only a file that is known to be of another season than the one looked for is
/// passed over.
pub proof fn only_another_season_is_passed_over(file: ArrFile, season: Option<i32>)
    ensures
        in_season(file, season) <==> season is None || file.season is None || season->0
            == file.season->0,
{
}

/// A file is confirmed exactly where something of the reported size is there, and
/// the confirmed files keep their order.
pub proof fn a_file_is_confirmed_by_its_size(
    looked: Seq<Reported>,
    found: Seq<Option<u64>>,
    i: int,
)
    requires
        found.len() == looked.len(),
        0 <= i < looked.len(),
    ensures
        found[i] == Some(looked[i].size) ==> confirmed(looked, found).contains(looked[i]),
        forall|k: int|
            0 <= k < confirmed(looked, found).len() ==> exists|s: int|
                0 <= s < looked.len() && #[trigger] looked[s] == #[trigger] confirmed(
                    looked,
                    found,
                )[k] && found[s] == Some(looked[s].size),
        confirmed(looked, found).len() == confirmed(looked.drop_last(), found.drop_last()).len()
            + if found.last() == Some(looked.last().size) {
            1nat
        } else {
            0
        },
    decreases looked.len(),
{
    let e = looked.len() - 1;
    let (front, seen) = (looked.drop_last(), found.drop_last());
    let before = confirmed(front, seen);
    let all = confirmed(looked, found);
    if front.len() > 0 {
        let at = if i < e {
            i
        } else {
            0
        };
        a_file_is_confirmed_by_its_size(front, seen, at);
    }
    if found[i] == Some(looked[i].size) {
        if i < e {
            assert(front[i] == looked[i] && seen[i] == found[i]);
            let k = choose|k: int| 0 <= k < before.len() && before[k] == looked[i];
            assert(all[k] == looked[i]);
        } else {
            assert(all.last() == looked[i]);
            assert(all[all.len() - 1] == looked[i]);
        }
    }
    assert forall|k: int| 0 <= k < all.len() implies exists|s: int|
        0 <= s < looked.len() && #[trigger] looked[s] == #[trigger] all[k] && found[s] == Some(
            looked[s].size,
        ) by {
        if k < before.len() {
            assert(all[k] == before[k]);
            let s = choose|s: int|
                0 <= s < front.len() && #[trigger] front[s] == before[k] && seen[s] == Some(
                    front[s].size,
                );
            assert(looked[s] == front[s] && found[s] == seen[s]);
        } else {
            assert(looked[e] == all[k]);
        }
    }
}

/// A path is rewritten by the first mapping whose directory it lies at or below,
/// and stays as it is where there is none.
pub proof fn the_first_mapping_that_fits_is_used(
    mappings: Seq<PathMapping>,
    reported: Seq<char>,
    at: int,
)
    requires
        0 <= at <= mappings.len(),
        forall|i: int|
            0 <= i < at ==> !crate::paths::components((#[trigger] mappings[i]).from@).is_prefix_of(
                crate::paths::components(reported),
            ),
    ensures
        at == mappings.len() ==> mapped(mappings, reported) == reported,
        at < mappings.len() && crate::paths::components(mappings[at].from@).is_prefix_of(
            crate::paths::components(reported),
        ) ==> mapped(mappings, reported) == joined_path(
            mappings[at].to@,
            rest_behind(reported, mappings[at].from@),
        ),
    decreases at,
{
    if at > 0 {
        let rest = mappings.drop_first();
        assert(!crate::paths::within(reported, mappings[0].from@));
        assert forall|i: int| 0 <= i < at - 1 implies !crate::paths::components(
            (#[trigger] rest[i]).from@,
        ).is_prefix_of(crate::paths::components(reported)) by {
            assert(rest[i] == mappings[i + 1]);
        }
        the_first_mapping_that_fits_is_used(rest, reported, at - 1);
        if at < mappings.len() {
            assert(rest[at - 1] == mappings[at]);
        }
    }
}

/// Behind an absolute directory stand the names that follow its own: a path of
/// the names of the directory and then others is rewritten to those others.
pub proof fn what_stands_behind_a_directory(
    path: Seq<char>,
    dir: Seq<char>,
    own: Seq<Seq<char>>,
    others: Seq<Seq<char>>,
)
    requires
        crate::text::begins_with(path, '/'),
        crate::text::fields(path, '/') == seq![Seq::<char>::empty()] + own + others,
        crate::paths::components(dir) == seq!["/"@] + own,
        others.len() > 0,
        forall|i: int| 0 <= i < own.len() ==> (#[trigger] own[i]).len() > 0 && own[i] != "."@,
        forall|i: int|
            0 <= i < others.len() ==> (#[trigger] others[i]).len() > 0 && others[i] != "."@,
    ensures
        rest_behind(path, dir) == crate::text::joined(others, '/'),
{
    let fields = crate::text::fields(path, '/');
    assert(fields[0] =~= Seq::<char>::empty());
    assert(fields.drop_first() =~= own + others);
    names_are_left_behind(own, others);
    if own.len() == 0 {
        assert(own + others =~= others);
        assert(from_first_name(fields) == from_first_name(fields.drop_first()));
    } else {
        assert(behind_names(fields, own.len() as int) == behind_names(
            fields.drop_first(),
            own.len() as int,
        ));
    }
    assert(crate::paths::is_name(others[0]));
    assert(from_first_name(others) == others);
    assert(crate::paths::is_name(others.last()));
    assert(to_last_name(others) == others);
}

proof fn names_are_left_behind(own: Seq<Seq<char>>, others: Seq<Seq<char>>)
    requires
        forall|i: int| 0 <= i < own.len() ==> (#[trigger] own[i]).len() > 0 && own[i] != "."@,
    ensures
        behind_names(own + others, own.len() as int) == others,
    decreases own.len(),
{
    if own.len() == 0 {
        assert(own + others =~= others);
    } else {
        let rest = own.drop_first();
        assert forall|i: int| 0 <= i < rest.len() implies (#[trigger] rest[i]).len() > 0 && rest[i]
            != "."@ by {
            assert(rest[i] == own[i + 1]);
        }
        names_are_left_behind(rest, others);
        assert((own + others).drop_first() =~= rest + others);
        assert(crate::paths::is_name(own[0]));
    }
}

/// Only a status of success lets a reply count; a refused key and any other
/// refusal are not worth another try, and an error of the server is.
pub proof fn which_replies_count(
    label: Seq<char>,
    status: u16,
    shown: Seq<char>,
    r: Result<(), CandidateError>,
)
    requires
        reply_judged(label, status, shown, r),
    ensures
        r is Ok <==> 200 <= status < 300,
        r matches Err(error) ==> (error is Transport <==> 500 <= status < 600),
        r matches Err(error) ==> (error is Protocol <==> !(500 <= status < 600)),
        status == 401 || status == 403 ==> (r matches Err(CandidateError::Protocol(message))
            && message@ == label + " rejected the configured API key"@),
{
}

} // verus!
