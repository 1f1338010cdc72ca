//! Asking an *arr for candidates, step by step.
//!
//! A release name is parsed into the series or movie it belongs to, that
//! title's imported files are listed, and the listed files are looked for on
//! disk. Whoever runs a search performs the [`Action`] that an [`ArrSearch`]
//! asks for and hands back the [`Event`] that came of it.

use vstd::prelude::*;
use vstd::string::*;

use super::arr::{ArrCandidateSource, ArrFile, ArrKind, Reported};
use crate::library::{Candidate, CandidateError, CandidateQuery};
use crate::urls::MAX_URL_CHARS;

verus! {

/// What an *arr makes of a release name.
#[derive(Clone, Copy, Debug, PartialEq, Eq, Structural)]
pub struct Release {
    /// The series it belongs to, if any.
    pub series: Option<u64>,
    /// The movie it belongs to, if any.
    pub movie: Option<u64>,
    /// The season, where the name tells.
    pub season: Option<i32>,
}

/// A reply over HTTP: its status, how that is shown, and the body, or why it
/// cannot be parsed.
#[derive(Debug)]
pub struct Reply<T> {
    pub status: u16,
    pub shown: String,
    pub body: Result<T, String>,
}

/// What a request came to; or why nothing came back.
pub type Answer<T> = Result<Reply<T>, String>;

/// What a search is in the middle of.
#[derive(Debug)]
pub enum Stage {
    Parsing,
    /// Its files are listed. That season is looked for.
    Listing(Option<i32>),
    /// These files are looked for on disk.
    Looking(Vec<Reported>),
    Done,
}

/// What came of an action.
#[derive(Debug)]
pub enum Event {
    Parsed(Answer<Release>),
    Listed(Answer<Vec<ArrFile>>),
    /// The length of each file looked for, where it is there.
    Found(Vec<Option<u64>>),
}

/// What to do next for a search.
#[derive(Debug, PartialEq, Eq)]
pub enum Action {
    /// Ask what that URL says of the release.
    Parse(String),
    /// Ask that URL for the files.
    List(String),
    /// Look for those paths on disk.
    Look(Vec<String>),
    Finish(Result<Vec<Candidate>, CandidateError>),
}

/// A search of one *arr instance.
#[derive(Debug)]
pub struct ArrSearch {
    pub source: ArrCandidateSource,
    pub stage: Stage,
}

/// What an answer comes to: only a success has a body that counts.
pub open spec fn answered<T>(
    label: Seq<char>,
    answer: Answer<T>,
    r: Result<T, CandidateError>,
) -> bool {
    match answer {
        Err(why) => r == Err::<T, CandidateError>(CandidateError::Transport(why)),
        Ok(reply) => if 200 <= reply.status < 300 {
            match reply.body {
                Ok(body) => r == Ok::<T, CandidateError>(body),
                Err(why) => r matches Err(CandidateError::Protocol(message)) && message@
                    == "cannot parse response: "@ + why@,
            }
        } else {
            r matches Err(error) && super::arr::reply_judged(
                label,
                reply.status,
                reply.shown@,
                Err(error),
            )
        },
    }
}

fn read_answer<T>(source: &ArrCandidateSource, answer: Answer<T>) -> (r: Result<T, CandidateError>)
    ensures
        answered(source.label@, answer, r),
{
    let reply = match answer {
        Ok(reply) => reply,
        Err(why) => return Err(CandidateError::Transport(why)),
    };
    match source.judge_reply(reply.status, reply.shown.as_str()) {
        Ok(()) => {},
        Err(error) => return Err(error),
    }
    match reply.body {
        Ok(body) => Ok(body),
        Err(why) => {
            let mut message = "cannot parse response: ".to_owned();
            message.append(why.as_str());
            Err(CandidateError::Protocol(message))
        },
    }
}

/// The title that the source asks about, in what was made of the release.
pub open spec fn title(kind: ArrKind, release: Release) -> Option<u64> {
    match kind {
        ArrKind::Sonarr => release.series,
        ArrKind::Radarr => release.movie,
    }
}

/// The season that is looked for: only a series has one.
pub open spec fn wanted_season(kind: ArrKind, release: Release) -> Option<i32> {
    match kind {
        ArrKind::Sonarr => release.season,
        ArrKind::Radarr => None,
    }
}

/// The search ends with an error.
pub open spec fn fails(after: ArrSearch, action: Action, error: CandidateError) -> bool {
    after.stage is Done && action == Action::Finish(Err::<Vec<Candidate>, CandidateError>(error))
}

/// A request is made, or cannot be built.
pub open spec fn requests(
    built: Result<String, CandidateError>,
    listing: Option<Option<i32>>,
    after: ArrSearch,
    action: Action,
) -> bool {
    match built {
        Err(error) => fails(after, action, error),
        Ok(url) => match listing {
            None => after.stage is Parsing && action == Action::Parse(url),
            Some(season) => after.stage == Stage::Listing(season) && action == Action::List(url),
        },
    }
}

/// How a search begins: the release name is parsed.
pub open spec fn begins(
    source: ArrCandidateSource,
    name: Seq<char>,
    after: ArrSearch,
    action: Action,
) -> bool {
    &&& after.source == source
    &&& exists|built: Result<String, CandidateError>|
        #[trigger] super::arr::asks(built, source.base_url@, "api/v3/parse"@, "title"@, name)
            && requests(built, None, after, action)
}

/// Where the files of a title are listed.
pub open spec fn lists(
    source: ArrCandidateSource,
    id: u64,
    built: Result<String, CandidateError>,
) -> bool {
    super::arr::asks(
        built,
        source.base_url@,
        match source.kind {
            ArrKind::Sonarr => "api/v3/episodefile"@,
            ArrKind::Radarr => "api/v3/moviefile"@,
        },
        match source.kind {
            ArrKind::Sonarr => "seriesId"@,
            ArrKind::Radarr => "movieId"@,
        },
        crate::text::decimal(id as nat),
    )
}

/// What the *arr made of the release comes to. A release that belongs to
/// nothing it knows is an honest empty result, not an error.
pub open spec fn understood(
    source: ArrCandidateSource,
    parsed: Result<Release, CandidateError>,
    after: ArrSearch,
    action: Action,
) -> bool {
    match parsed {
        Err(error) => fails(after, action, error),
        Ok(release) => match title(source.kind, release) {
            None => after.stage is Done && (action matches Action::Finish(Ok(found))
                && found@.len() == 0),
            Some(id) => exists|built: Result<String, CandidateError>|
                #[trigger] lists(source, id, built) && requests(
                    built,
                    Some(wanted_season(source.kind, release)),
                    after,
                    action,
                ),
        },
    }
}

/// The files to look for are those of the season, under the paths they have
/// here.
pub open spec fn looks_for(
    source: ArrCandidateSource,
    files: Seq<ArrFile>,
    season: Option<i32>,
    looked: Seq<Reported>,
) -> bool {
    let chosen = files.filter(|file: ArrFile| super::arr::in_season(file, season));
    &&& looked.len() == chosen.len()
    &&& forall|i: int|
        0 <= i < chosen.len() ==> (#[trigger] looked[i]).path@ == super::arr::mapped(
            source.path_mappings@,
            chosen[i].path@,
        ) && looked[i].size == chosen[i].size
}

/// The paths of files.
pub open spec fn paths_of(looked: Seq<Reported>) -> Seq<Seq<char>> {
    looked.map_values(|file: Reported| file.path@)
}

/// What the list of files comes to.
pub open spec fn listed(
    source: ArrCandidateSource,
    season: Option<i32>,
    files: Result<Vec<ArrFile>, CandidateError>,
    after: ArrSearch,
    action: Action,
) -> bool {
    match files {
        Err(error) => fails(after, action, error),
        Ok(files) => after.stage matches Stage::Looking(looked) && looks_for(
            source,
            files@,
            season,
            looked@,
        ) && (action matches Action::Look(paths) && crate::text::texts(paths@) == paths_of(looked@)),
    }
}

/// The candidates are the files that are there with the reported size.
pub open spec fn confirmed(
    source: ArrCandidateSource,
    looked: Seq<Reported>,
    found: Seq<Option<u64>>,
    after: ArrSearch,
    action: Action,
) -> bool {
    let there = super::arr::confirmed(looked, found);
    &&& after.stage is Done
    &&& action matches Action::Finish(Ok(candidates)) && candidates@.len() == there.len() && (
    forall|i: int|
        0 <= i < there.len() ==> (#[trigger] candidates@[i]).path@ == there[i].path@
            && candidates@[i].size_bytes == there[i].size && source.stands_for(
            candidates@[i].origin,
        ))
}

/// The event is what can come of the action that the stage stands for.
pub open spec fn fits(stage: Stage, event: Event) -> bool {
    match (stage, event) {
        (Stage::Parsing, Event::Parsed(_)) => true,
        (Stage::Listing(_), Event::Listed(_)) => true,
        (Stage::Looking(looked), Event::Found(found)) => found@.len() == looked@.len(),
        _ => false,
    }
}

/// What an event comes to.
pub open spec fn searched(
    before: ArrSearch,
    event: Event,
    after: ArrSearch,
    action: Action,
) -> bool {
    let source = before.source;
    &&& after.source == source
    &&& match (before.stage, event) {
        (Stage::Parsing, Event::Parsed(answer)) => exists|parsed: Result<Release, CandidateError>|
            #[trigger] answered(source.label@, answer, parsed) && understood(
                source,
                parsed,
                after,
                action,
            ),
        (Stage::Listing(season), Event::Listed(answer)) => exists|
            files: Result<Vec<ArrFile>, CandidateError>,
        |
            #[trigger] answered(source.label@, answer, files) && listed(
                source,
                season,
                files,
                after,
                action,
            ),
        (Stage::Looking(looked), Event::Found(found)) => confirmed(
            source,
            looked@,
            found@,
            after,
            action,
        ),
        _ => false,
    }
}

fn paths_to_look_for(looked: &Vec<Reported>) -> (r: Vec<String>)
    ensures
        crate::text::texts(r@) == paths_of(looked@),
{
    let mut out: Vec<String> = Vec::new();
    let mut i: usize = 0;
    while i < looked.len()
        invariant
            i <= looked@.len(),
            crate::text::texts(out@) =~= paths_of(looked@.take(i as int)),
        decreases looked@.len() - i,
    {
        crate::text::push_text(&mut out, looked[i].path.as_str());
        assert(paths_of(looked@.take(i + 1)) =~= paths_of(looked@.take(i as int)).push(
            looked@[i as int].path@,
        ));
        i += 1;
    }
    assert(looked@.take(i as int) =~= looked@);
    out
}

impl ArrSearch {
    /// Begin a search.
    pub fn start(source: ArrCandidateSource, query: &CandidateQuery) -> (r: (ArrSearch, Action))
        requires
            source.base_url@.len() + query.torrent_name@.len() + 64 <= MAX_URL_CHARS,
        ensures
            begins(source, query.torrent_name@, r.0, r.1),
    {
        let built = source.parse_url(query);
        let ghost told = built;
        assert(super::arr::asks(
            told,
            source.base_url@,
            "api/v3/parse"@,
            "title"@,
            query.torrent_name@,
        ));
        match built {
            Ok(url) => (ArrSearch { source, stage: Stage::Parsing }, Action::Parse(url)),
            Err(error) => (ArrSearch { source, stage: Stage::Done }, Action::Finish(Err(error))),
        }
    }

    fn fail(self, error: CandidateError) -> (r: (ArrSearch, Action))
        ensures
            r.0.source == self.source,
            fails(r.0, r.1, error),
    {
        (ArrSearch { source: self.source, stage: Stage::Done }, Action::Finish(Err(error)))
    }

    fn understand(self, parsed: Result<Release, CandidateError>) -> (r: (ArrSearch, Action))
        requires
            self.source.base_url@.len() + 64 <= MAX_URL_CHARS,
        ensures
            r.0.source == self.source,
            understood(self.source, parsed, r.0, r.1),
    {
        let release = match parsed {
            Ok(release) => release,
            Err(error) => return self.fail(error),
        };
        let (id, season) = match self.source.kind {
            ArrKind::Sonarr => (release.series, release.season),
            ArrKind::Radarr => (release.movie, None),
        };
        let id: u64 = match id {
            Some(id) => id,
            None => {
                return (
                    ArrSearch { source: self.source, stage: Stage::Done },
                    Action::Finish(Ok(Vec::new())),
                );
            },
        };
        let built = self.source.files_url(id);
        let ghost told = built;
        assert(lists(self.source, id, told));
        match built {
            Ok(url) => (
                ArrSearch { source: self.source, stage: Stage::Listing(season) },
                Action::List(url),
            ),
            Err(error) => self.fail(error),
        }
    }

    /// Take in what came of the last action, and say what to do next.
    pub fn next(self, event: Event) -> (r: (ArrSearch, Action))
        requires
            fits(self.stage, event),
            self.source.base_url@.len() + 64 <= MAX_URL_CHARS,
        ensures
            searched(self, event, r.0, r.1),
    {
        match event {
            Event::Parsed(answer) => {
                let parsed = read_answer(&self.source, answer);
                assert(answered(self.source.label@, answer, parsed));
                self.understand(parsed)
            },
            Event::Listed(answer) => {
                let files = read_answer(&self.source, answer);
                assert(answered(self.source.label@, answer, files));
                let season = match &self.stage {
                    Stage::Listing(season) => *season,
                    _ => None,
                };
                match files {
                    Ok(files) => {
                        let looked = self.source.files_to_look_for(&files, season);
                        let paths = paths_to_look_for(&looked);
                        (
                            ArrSearch { source: self.source, stage: Stage::Looking(looked) },
                            Action::Look(paths),
                        )
                    },
                    Err(error) => self.fail(error),
                }
            },
            Event::Found(found) => {
                let source = self.source;
                match self.stage {
                    Stage::Looking(looked) => {
                        let candidates = source.candidates(&looked, &found);
                        (
                            ArrSearch { source, stage: Stage::Done },
                            Action::Finish(Ok(candidates)),
                        )
                    },
                    _ => (
                        ArrSearch { source, stage: Stage::Done },
                        Action::Finish(Ok(Vec::new())),
                    ),
                }
            },
        }
    }
}

/// A failed request is never read as a list without candidates: where no
/// request succeeded, the search ends with an error.
pub proof fn a_failed_request_is_an_error(
    before: ArrSearch,
    event: Event,
    after: ArrSearch,
    action: Action,
)
    requires
        searched(before, event, after, action),
        match event {
            Event::Parsed(answer) => answer is Err || !(200 <= answer->Ok_0.status < 300),
            Event::Listed(answer) => answer is Err || !(200 <= answer->Ok_0.status < 300),
            Event::Found(_) => false,
        },
    ensures
        action matches Action::Finish(result) && result is Err,
{
}

/// A release that the instance knows is followed to its title: a series by its
/// series, for the season the name tells, and a movie by its movie. One that it
/// does not know has no candidates.
pub proof fn a_known_release_leads_to_its_files(
    before: ArrSearch,
    reply: Reply<Release>,
    after: ArrSearch,
    action: Action,
)
    requires
        before.stage is Parsing,
        searched(before, Event::Parsed(Ok(reply)), after, action),
        200 <= reply.status < 300,
        reply.body is Ok,
    ensures
        ({
            let release = reply.body->Ok_0;
            let (id, season, path, name) = match before.source.kind {
                ArrKind::Sonarr => (
                    release.series,
                    release.season,
                    "api/v3/episodefile"@,
                    "seriesId"@,
                ),
                ArrKind::Radarr => (release.movie, None, "api/v3/moviefile"@, "movieId"@),
            };
            match id {
                None => action matches Action::Finish(Ok(found)) && found@.len() == 0,
                Some(n) => match crate::urls::request_url(
                    before.source.base_url@,
                    path,
                    name,
                    crate::text::decimal(n as nat),
                ) {
                    Ok(url) => (action matches Action::List(asked) && asked@ == url) && after.stage
                        == Stage::Listing(season),
                    Err(_) => action matches Action::Finish(result) && result is Err,
                },
            }
        }),
{
}

/// Of the files listed, those that are not of another season are looked for on
/// disk, each under the path it has here and with the size that was reported, and
/// no others are.
pub proof fn listed_files_are_looked_for(
    before: ArrSearch,
    season: Option<i32>,
    reply: Reply<Vec<ArrFile>>,
    after: ArrSearch,
    action: Action,
    i: int,
    k: int,
)
    requires
        before.stage == Stage::Listing(season),
        searched(before, Event::Listed(Ok(reply)), after, action),
        200 <= reply.status < 300,
        reply.body is Ok,
        0 <= i < reply.body->Ok_0@.len(),
        after.stage matches Stage::Looking(looked) ==> 0 <= k < looked@.len(),
    ensures
        ({
            let files = reply.body->Ok_0@;
            &&& after.stage matches Stage::Looking(looked)
            &&& action matches Action::Look(paths)
            &&& paths@.len() == looked@.len()
            &&& paths@[k]@ == looked@[k].path@
            &&& (season is None || files[i].season is None || season == files[i].season)
                ==> exists|s: int|
                0 <= s < looked@.len() && (#[trigger] looked@[s]).path@ == super::arr::mapped(
                    before.source.path_mappings@,
                    files[i].path@,
                ) && looked@[s].size == files[i].size
            &&& exists|s: int|
                0 <= s < files.len() && (season is None || files[s].season is None || season
                    == files[s].season) && super::arr::mapped(
                    before.source.path_mappings@,
                    (#[trigger] files[s]).path@,
                ) == looked@[k].path@ && files[s].size == looked@[k].size
        }),
{
    let files = reply.body->Ok_0@;
    let keep = |file: ArrFile| super::arr::in_season(file, season);
    let chosen = files.filter(keep);
    crate::sorting::what_is_kept_of_a_list(files, keep);
    let looked = after.stage->Looking_0@;
    assert(looks_for(before.source, files, season, looked));
    if season is None || files[i].season is None || season == files[i].season {
        assert(keep(files[i]));
        assert(chosen.contains(files[i]));
        let s = choose|s: int| 0 <= s < chosen.len() && chosen[s] == files[i];
        assert(looked[s].path@ == super::arr::mapped(
            before.source.path_mappings@,
            chosen[s].path@,
        ));
    }
    assert(chosen.contains(chosen[k]));
    assert(keep(chosen[k]));
    assert(files.contains(chosen[k]));
    let s = choose|s: int| 0 <= s < files.len() && files[s] == chosen[k];
    assert(super::arr::mapped(before.source.path_mappings@, files[s].path@) == looked[k].path@);
    let paths = action->Look_0;
    assert(crate::text::texts(paths@).len() == paths_of(looked).len());
    assert(crate::text::texts(paths@)[k] == paths@[k]@);
    assert(paths_of(looked)[k] == looked[k].path@);
}

/// A file that is there with the reported size becomes a candidate of this source,
/// and nothing else does.
pub proof fn files_that_are_there_are_candidates(
    before: ArrSearch,
    looked: Vec<Reported>,
    found: Vec<Option<u64>>,
    after: ArrSearch,
    action: Action,
    i: int,
)
    requires
        before.stage == Stage::Looking(looked),
        found@.len() == looked@.len(),
        searched(before, Event::Found(found), after, action),
        0 <= i < looked@.len(),
    ensures
        action matches Action::Finish(Ok(candidates)) && {
            &&& found@[i] == Some(looked@[i].size) ==> exists|k: int|
                0 <= k < candidates@.len() && (#[trigger] candidates@[k]).path@ == looked@[i].path@
                    && candidates@[k].size_bytes == looked@[i].size
            &&& forall|k: int|
                0 <= k < candidates@.len() ==> match (#[trigger] candidates@[k]).origin {
                    crate::library::CandidateOrigin::Sonarr { instance } => before.source.kind is Sonarr
                        && instance@ == before.source.instance@,
                    crate::library::CandidateOrigin::Radarr { instance } => before.source.kind is Radarr
                        && instance@ == before.source.instance@,
                    _ => false,
                }
            &&& forall|k: int|
                0 <= k < candidates@.len() ==> exists|s: int|
                    0 <= s < looked@.len() && (#[trigger] looked@[s]).path@ == (
                    #[trigger] candidates@[k]).path@ && found@[s] == Some(
                        candidates@[k].size_bytes,
                    )
        },
{
    let there = super::arr::confirmed(looked@, found@);
    let candidates = action->Finish_0->Ok_0@;
    super::arr::a_file_is_confirmed_by_its_size(looked@, found@, i);
    if found@[i] == Some(looked@[i].size) {
        let k = choose|k: int| 0 <= k < there.len() && there[k] == looked@[i];
        assert(candidates[k].path@ == there[k].path@);
    }
    assert forall|k: int| 0 <= k < candidates.len() implies exists|s: int|
        0 <= s < looked@.len() && (#[trigger] looked@[s]).path@ == (
        #[trigger] candidates[k]).path@ && found@[s] == Some(candidates[k].size_bytes) by {
        assert(candidates[k].path@ == there[k].path@);
        let s = choose|s: int|
            0 <= s < looked@.len() && #[trigger] looked@[s] == there[k] && found@[s] == Some(
                looked@[s].size,
            );
        assert(looked@[s].path@ == candidates[k].path@);
    }
}

} // verus!
