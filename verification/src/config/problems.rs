//! What is wrong with a configuration.
//!
//! Every problem is a value, attributed to the key that is wrong, and all of
//! them are reported at once.

use vstd::prelude::*;
use vstd::string::*;

use super::secret::shouty;
use super::settings::{
    ArrConfig, Config, DownloadClientConfig, DownloadClientKind, LibraryConfig,
    NotificationsConfig, PolicyConfig, StagingConfig, TrackerConfig, TrackerKind, WorkerSettings,
    PLACEHOLDER_URL,
};
use crate::library::MatchConfidence;
use crate::paths::{ancestors, is_absolute};
use crate::staging::StagingRoot;
use crate::text::{decimal_of, join, push_text, same, split, trim};

verus! {

#[derive(Debug, PartialEq, Eq)]
pub enum ConfigError {
    /// the file cannot be read
    Read { path: String, source: String },
    /// the file cannot be parsed
    Parse { path: String, source: String },
    /// invalid configuration
    Invalid(String),
}

impl ConfigError {
    /// The sentence shown for it.
    pub open spec fn sentence(self) -> Seq<char> {
        match self {
            ConfigError::Read { path, source } => "cannot read "@ + path@ + ": "@ + source@,
            ConfigError::Parse { path, source } => "cannot parse "@ + path@ + ": "@ + source@,
            ConfigError::Invalid(why) => "invalid configuration: "@ + why@,
        }
    }

    pub fn message(&self) -> (r: String)
        ensures
            r@ == self.sentence(),
    {
        match self {
            ConfigError::Read { path, source } => {
                let mut out = "cannot read ".to_owned();
                out.append(path.as_str());
                out.append(": ");
                out.append(source.as_str());
                out
            },
            ConfigError::Parse { path, source } => {
                let mut out = "cannot parse ".to_owned();
                out.append(path.as_str());
                out.append(": ");
                out.append(source.as_str());
                out
            },
            ConfigError::Invalid(why) => {
                let mut out = "invalid configuration: ".to_owned();
                out.append(why.as_str());
                out
            },
        }
    }
}

#[derive(Clone, Copy, Debug, PartialEq, Eq, Structural)]
pub enum Severity {
    Error,
    Warning,
}

/// One thing wrong with a configuration, attributed to the key that is wrong,
/// so a settings form can put the message next to the field and all of them
/// can be printed at once.
#[derive(Debug, PartialEq, Eq)]
pub struct Problem {
    /// Dotted key with concrete indices: `trackers.1.api_key`, not `trackers`.
    /// `None` only for a problem about the configuration as a whole, or one
    /// that spans more than one key.
    pub key: Option<String>,
    pub severity: Severity,
    pub message: String,
}

/// What a problem says.
pub struct Finding {
    pub key: Option<Seq<char>>,
    pub severity: Severity,
    pub message: Seq<char>,
}

impl View for Problem {
    type V = Finding;

    open spec fn view(&self) -> Finding {
        Finding {
            key: match self.key {
                Some(key) => Some(key@),
                None => None,
            },
            severity: self.severity,
            message: self.message@,
        }
    }
}

/// What is known of the build.
#[derive(Clone, Copy, Debug, PartialEq, Eq, Structural)]
pub struct Build {
    /// In-memory trackers and clients are there.
    pub fakes: bool,
    /// Metrics are collected.
    pub metrics: bool,
}

/// What problems say, in their order.
pub open spec fn findings(problems: Seq<Problem>) -> Seq<Finding> {
    problems.map_values(|problem: Problem| problem@)
}

pub open spec fn error(key: Seq<char>, message: Seq<char>) -> Finding {
    Finding { key: Some(key), severity: Severity::Error, message }
}

pub open spec fn warning(key: Seq<char>, message: Seq<char>) -> Finding {
    Finding { key: Some(key), severity: Severity::Warning, message }
}

pub open spec fn global_error(message: Seq<char>) -> Finding {
    Finding { key: None, severity: Severity::Error, message }
}

pub open spec fn global_warning(message: Seq<char>) -> Finding {
    Finding { key: None, severity: Severity::Warning, message }
}

/// The finding, where it is one.
pub open spec fn when(holds: bool, finding: Finding) -> Seq<Finding> {
    if holds {
        seq![finding]
    } else {
        Seq::empty()
    }
}

impl Problem {
    pub fn error(key: &str, message: &str) -> (r: Problem)
        ensures
            r@ == error(key@, message@),
    {
        Problem {
            key: Some(key.to_owned()),
            severity: Severity::Error,
            message: message.to_owned(),
        }
    }

    pub fn warning(key: &str, message: &str) -> (r: Problem)
        ensures
            r@ == warning(key@, message@),
    {
        Problem {
            key: Some(key.to_owned()),
            severity: Severity::Warning,
            message: message.to_owned(),
        }
    }

    pub fn global_error(message: &str) -> (r: Problem)
        ensures
            r@ == global_error(message@),
    {
        Problem { key: None, severity: Severity::Error, message: message.to_owned() }
    }

    pub fn global_warning(message: &str) -> (r: Problem)
        ensures
            r@ == global_warning(message@),
    {
        Problem { key: None, severity: Severity::Warning, message: message.to_owned() }
    }
}

fn report(list: &mut Vec<Problem>, holds: bool, problem: Problem)
    ensures
        findings(final(list)@) == findings(old(list)@) + when(holds, problem@),
{
    let ghost before = list@;
    if holds {
        list.push(problem);
    }
    assert(findings(list@) =~= findings(before) + when(holds, problem@));
}

fn phrase(a: &str, b: &str, c: &str) -> (r: String)
    ensures
        r@ == a@ + b@ + c@,
{
    let mut out = a.to_owned();
    out.append(b);
    out.append(c);
    out
}

fn number(n: u64) -> (r: String)
    ensures
        r@ == crate::text::decimal(n as nat),
{
    decimal_of(n as u128)
}

// ---------------------------------------------------------------------------
// Repeated names
// ---------------------------------------------------------------------------

/// There is nothing in it but white space.
pub open spec fn blank(name: Seq<char>) -> bool {
    crate::text::trimmed(name).len() == 0
}

fn is_blank(name: &str) -> (r: bool)
    ensures
        r == blank(name@),
{
    trim(name).as_str().is_empty()
}

/// The first name that is no different as a fragment of an environment
/// variable name.
pub open spec fn first_alike(names: Seq<Seq<char>>, name: Seq<char>) -> Option<Seq<char>>
    decreases names.len(),
{
    if names.len() == 0 {
        None
    } else if !blank(names[0]) && super::secret::shouted(names[0]) == super::secret::shouted(name) {
        Some(names[0])
    } else {
        first_alike(names.drop_first(), name)
    }
}

/// The key of a repeated setting.
pub open spec fn indexed(section: Seq<char>, index: nat, field: Seq<char>) -> Seq<char> {
    section + "."@ + crate::text::decimal(index) + "."@ + field
}

/// What is wrong with a name, given the names before it.
pub open spec fn name_findings(
    section: Seq<char>,
    field: Seq<char>,
    before: Seq<Seq<char>>,
    name: Seq<char>,
) -> Seq<Finding> {
    let key = indexed(section, before.len(), field);
    if blank(name) {
        seq![error(key, "every "@ + section + " needs a non-empty `"@ + field + "`"@)]
    } else {
        when(
            before.contains(name),
            error(key, section + " "@ + field + " `"@ + name + "` is used twice"@),
        ) + match first_alike(before, name) {
            Some(other) => when(
                other != name,
                error(
                    key,
                    section + " "@ + field + " `"@ + name + "` and `"@ + other
                        + "` both become `"@ + super::secret::shouted(name)
                        + "` as an environment variable suffix, which collides"@,
                ),
            ),
            None => Seq::empty(),
        }
    }
}

/// What is wrong with the names of a repeated section: every one must be
/// non-empty and unique, and no two may collide once they become part of an
/// environment variable name, because a collision would feed two entries from
/// one variable.
pub open spec fn names_findings(
    section: Seq<char>,
    field: Seq<char>,
    names: Seq<Seq<char>>,
) -> Seq<Finding>
    decreases names.len(),
{
    if names.len() == 0 {
        Seq::empty()
    } else {
        names_findings(section, field, names.drop_last()) + name_findings(
            section,
            field,
            names.drop_last(),
            names.last(),
        )
    }
}

fn is_among(names: &Vec<String>, count: usize, name: &str) -> (r: bool)
    requires
        count <= names@.len(),
    ensures
        r == crate::text::texts(names@).take(count as int).contains(name@),
{
    let ghost before = crate::text::texts(names@).take(count as int);
    let mut j: usize = 0;
    while j < count
        invariant
            j <= count <= names@.len(),
            before == crate::text::texts(names@).take(count as int),
            forall|k: int| 0 <= k < j ==> before[k] != name@,
        decreases count - j,
    {
        assert(before[j as int] == names@[j as int]@);
        if same(names[j].as_str(), name) {
            return true;
        }
        j += 1;
    }
    false
}

fn find_alike(names: &Vec<String>, count: usize, name: &str) -> (r: Option<String>)
    requires
        count <= names@.len(),
    ensures
        match r {
            Some(other) => first_alike(crate::text::texts(names@).take(count as int), name@)
                == Some(other@),
            None => first_alike(crate::text::texts(names@).take(count as int), name@) is None,
        },
{
    let ghost before = crate::text::texts(names@).take(count as int);
    let wanted = shouty(name);
    let mut j: usize = 0;
    assert(before.skip(0) =~= before);
    while j < count
        invariant
            j <= count <= names@.len(),
            before == crate::text::texts(names@).take(count as int),
            wanted@ == super::secret::shouted(name@),
            first_alike(before, name@) == first_alike(before.skip(j as int), name@),
        decreases count - j,
    {
        assert(before.skip(j as int)[0] == names@[j as int]@);
        assert(before.skip(j as int).drop_first() =~= before.skip(j + 1));
        if !is_blank(names[j].as_str()) && same(
            shouty(names[j].as_str()).as_str(),
            wanted.as_str(),
        ) {
            return Some(names[j].clone());
        }
        j += 1;
    }
    None
}

fn index_key(section: &str, index: usize, field: &str) -> (r: String)
    ensures
        r@ == indexed(section@, index as nat, field@),
{
    let mut key = section.to_owned();
    key.append(".");
    key.append(decimal_of(index as u128).as_str());
    key.append(".");
    key.append(field);
    key
}

fn report_name(
    list: &mut Vec<Problem>,
    section: &str,
    field: &str,
    names: &Vec<String>,
    index: usize,
)
    requires
        index < names@.len(),
    ensures
        findings(final(list)@) == findings(old(list)@) + name_findings(
            section@,
            field@,
            crate::text::texts(names@).take(index as int),
            names@[index as int]@,
        ),
{
    let ghost start = findings(list@);
    let ghost before = crate::text::texts(names@).take(index as int);
    let name = names[index].as_str();
    let key = index_key(section, index, field);
    if is_blank(name) {
        let mut message = phrase("every ", section, " needs a non-empty `");
        message.append(field);
        message.append("`");
        report(list, true, Problem::error(key.as_str(), message.as_str()));
        return;
    }
    let mut subject = phrase(section, " ", field);
    subject.append(" `");
    subject.append(name);
    let twice = is_among(names, index, name);
    let used = phrase(subject.as_str(), "` is used twice", "");
    proof {
        reveal_strlit("");
        assert(used@ =~= section@ + " "@ + field@ + " `"@ + name@ + "` is used twice"@);
    }
    report(list, twice, Problem::error(key.as_str(), used.as_str()));
    match find_alike(names, index, name) {
        Some(other) => {
            let mut message = phrase(subject.as_str(), "` and `", other.as_str());
            message.append("` both become `");
            message.append(shouty(name).as_str());
            message.append("` as an environment variable suffix, which collides");
            let differs = !same(other.as_str(), name);
            report(list, differs, Problem::error(key.as_str(), message.as_str()));
        },
        None => {},
    }
    proof {
        assert(findings(list@) =~= start + name_findings(section@, field@, before, name@));
    }
}

/// What is wrong with the names of a repeated section. Shared by the trackers'
/// ids and the *arrs' names.
pub fn repeated_name_problems(section: &str, field: &str, names: &Vec<String>) -> (r: Vec<Problem>)
    ensures
        findings(r@) == names_findings(section@, field@, crate::text::texts(names@)),
{
    let ghost all = crate::text::texts(names@);
    let mut list: Vec<Problem> = Vec::new();
    let mut i: usize = 0;
    assert(findings(list@) =~= Seq::<Finding>::empty());
    while i < names.len()
        invariant
            i <= names@.len(),
            all == crate::text::texts(names@),
            findings(list@) == names_findings(section@, field@, all.take(i as int)),
        decreases names@.len() - i,
    {
        proof {
            assert(all.take(i + 1).drop_last() =~= all.take(i as int));
            assert(all.take(i + 1).last() == names@[i as int]@);
        }
        report_name(&mut list, section, field, names, i);
        i += 1;
    }
    assert(all.take(i as int) =~= all);
    list
}

fn append(list: &mut Vec<Problem>, more: Vec<Problem>)
    ensures
        findings(final(list)@) == findings(old(list)@) + findings(more@),
{
    let ghost before = list@;
    let mut rest = more;
    list.append(&mut rest);
    assert(findings(list@) =~= findings(before) + findings(more@));
}

// ---------------------------------------------------------------------------
// Findable without looking at anything else
// ---------------------------------------------------------------------------

/// What is wrong with the server's settings. `bind` is whether the address is a
/// socket address, or why not.
pub open spec fn server_findings(config: Config, bind: Result<(), String>) -> Seq<Finding> {
    when(
        bind is Err,
        error(
            "server.bind_address"@,
            "server.bind_address `"@ + config.server.bind_address@
                + "` is not a socket address: "@ + bind->Err_0@,
        ),
    ) + when(
        config.server.auth_token.hidden().len() == 0,
        warning(
            "server.auth_token"@,
            "server.auth_token is unset; anyone who can reach this port can change where SeedMedic writes \u{2014} see /settings"@,
        ),
    )
}

fn server_problems(config: &Config, bind: &Result<(), String>) -> (r: Vec<Problem>)
    ensures
        findings(r@) == server_findings(*config, *bind),
{
    let mut list: Vec<Problem> = Vec::new();
    match bind {
        Ok(()) => {},
        Err(why) => {
            let mut message = phrase(
                "server.bind_address `",
                config.server.bind_address.as_str(),
                "` is not a socket address: ",
            );
            message.append(why.as_str());
            report(&mut list, true, Problem::error("server.bind_address", message.as_str()));
        },
    }
    report(
        &mut list,
        config.server.auth_token.is_empty(),
        Problem::warning(
            "server.auth_token",
            "server.auth_token is unset; anyone who can reach this port can change where SeedMedic writes \u{2014} see /settings",
        ),
    );
    assert(findings(list@) =~= server_findings(*config, *bind));
    list
}

/// Some tracker is of that kind.
pub open spec fn has_kind(trackers: Seq<TrackerConfig>, fake: bool) -> bool {
    exists|i: int| 0 <= i < trackers.len() && ((#[trigger] trackers[i]).kind is Fake) == fake
}

/// The trackers' ids.
pub open spec fn tracker_ids(trackers: Seq<TrackerConfig>) -> Seq<Seq<char>> {
    trackers.map_values(|tracker: TrackerConfig| tracker.id@)
}

/// A fake tracker in a build without fakes is wrong.
pub open spec fn kind_findings(trackers: Seq<TrackerConfig>, fakes: bool) -> Seq<Finding>
    decreases trackers.len(),
{
    if trackers.len() == 0 {
        Seq::empty()
    } else {
        kind_findings(trackers.drop_last(), fakes) + when(
            trackers.last().kind is Fake && !fakes,
            error(
                indexed("trackers"@, (trackers.len() - 1) as nat, "kind"@),
                "tracker `"@ + trackers.last().id@
                    + "` is configured as `fake`, but this build has the `fakes` feature disabled"@,
            ),
        )
    }
}

/// What is wrong with the trackers.
pub open spec fn tracker_findings(trackers: Seq<TrackerConfig>, build: Build) -> Seq<Finding> {
    when(
        trackers.len() == 0,
        global_warning(
            "no [[trackers]] entry is configured; correct for a fresh install, but discovery will find nothing until at least one is set"@,
        ),
    ) + names_findings("trackers"@, "id"@, tracker_ids(trackers)) + when(
        has_kind(trackers, true) && has_kind(trackers, false),
        global_error(
            "trackers mix a `fake` tracker with a real one; the torrent decoder is chosen for the whole build, so the fake tracker's demo torrents will fail to parse"@,
        ),
    ) + kind_findings(trackers, build.fakes)
}

fn any_of_kind(trackers: &Vec<TrackerConfig>, fake: bool) -> (r: bool)
    ensures
        r == has_kind(trackers@, fake),
{
    let mut i: usize = 0;
    while i < trackers.len()
        invariant
            i <= trackers@.len(),
            forall|k: int|
                0 <= k < i ==> ((#[trigger] trackers@[k]).kind is Fake) != fake,
        decreases trackers@.len() - i,
    {
        if (trackers[i].kind == TrackerKind::Fake) == fake {
            return true;
        }
        i += 1;
    }
    false
}

fn tracker_problems(trackers: &Vec<TrackerConfig>, build: Build) -> (r: Vec<Problem>)
    ensures
        findings(r@) == tracker_findings(trackers@, build),
{
    let mut list: Vec<Problem> = Vec::new();
    report(
        &mut list,
        trackers.len() == 0,
        Problem::global_warning(
            "no [[trackers]] entry is configured; correct for a fresh install, but discovery will find nothing until at least one is set",
        ),
    );
    let mut ids: Vec<String> = Vec::new();
    let mut i: usize = 0;
    while i < trackers.len()
        invariant
            i <= trackers@.len(),
            crate::text::texts(ids@) =~= tracker_ids(trackers@.take(i as int)),
        decreases trackers@.len() - i,
    {
        push_text(&mut ids, trackers[i].id.as_str());
        assert(tracker_ids(trackers@.take(i + 1)) =~= tracker_ids(trackers@.take(i as int)).push(
            trackers@[i as int].id@,
        ));
        i += 1;
    }
    assert(trackers@.take(i as int) =~= trackers@);
    append(&mut list, repeated_name_problems("trackers", "id", &ids));
    let mixed: bool = any_of_kind(trackers, true) && any_of_kind(trackers, false);
    report(
        &mut list,
        mixed,
        Problem::global_error(
            "trackers mix a `fake` tracker with a real one; the torrent decoder is chosen for the whole build, so the fake tracker's demo torrents will fail to parse",
        ),
    );
    let ghost start = findings(list@);
    let mut j: usize = 0;
    assert(start =~= start + kind_findings(trackers@.take(0), build.fakes));
    while j < trackers.len()
        invariant
            j <= trackers@.len(),
            findings(list@) == start + kind_findings(trackers@.take(j as int), build.fakes),
        decreases trackers@.len() - j,
    {
        proof {
            assert(trackers@.take(j + 1).drop_last() =~= trackers@.take(j as int));
        }
        let message = phrase(
            "tracker `",
            trackers[j].id.as_str(),
            "` is configured as `fake`, but this build has the `fakes` feature disabled",
        );
        let wrong: bool = trackers[j].kind == TrackerKind::Fake && !build.fakes;
        report(
            &mut list,
            wrong,
            Problem::error(index_key("trackers", j, "kind").as_str(), message.as_str()),
        );
        assert(findings(list@) =~= start + kind_findings(trackers@.take(j + 1), build.fakes));
        j += 1;
    }
    assert(trackers@.take(j as int) =~= trackers@);
    assert(findings(list@) =~= tracker_findings(trackers@, build));
    list
}

/// What is wrong with the staging settings.
pub open spec fn staging_findings(staging: StagingConfig) -> Seq<Finding> {
    (if staging.root@.len() == 0 {
        seq![
            warning(
                "staging.root"@,
                "staging.root is unset; no repair can be materialized until it is set \u{2014} see /settings"@,
            ),
        ]
    } else {
        when(
            !crate::paths::absolute(staging.root@),
            error(
                "staging.root"@,
                "staging.root `"@ + staging.root@ + "` must be an absolute path"@,
            ),
        )
    }) + when(
        staging.min_free_bytes == 0,
        warning(
            "staging.min_free_bytes"@,
            "staging.min_free_bytes is 0, disabling the free-space margin it exists for"@,
        ),
    )
}

fn staging_problems(staging: &StagingConfig) -> (r: Vec<Problem>)
    ensures
        findings(r@) == staging_findings(*staging),
{
    let mut list: Vec<Problem> = Vec::new();
    if staging.root.as_str().is_empty() {
        report(
            &mut list,
            true,
            Problem::warning(
                "staging.root",
                "staging.root is unset; no repair can be materialized until it is set \u{2014} see /settings",
            ),
        );
    } else {
        let message = phrase(
            "staging.root `",
            staging.root.as_str(),
            "` must be an absolute path",
        );
        report(
            &mut list,
            !is_absolute(staging.root.as_str()),
            Problem::error("staging.root", message.as_str()),
        );
    }
    report(
        &mut list,
        staging.min_free_bytes == 0,
        Problem::warning(
            "staging.min_free_bytes",
            "staging.min_free_bytes is 0, disabling the free-space margin it exists for",
        ),
    );
    assert(findings(list@) =~= staging_findings(*staging));
    list
}

/// The key of a library root.
pub open spec fn root_key(index: nat) -> Seq<char> {
    "library.roots."@ + crate::text::decimal(index)
}

fn key_of_root(index: usize) -> (r: String)
    ensures
        r@ == root_key(index as nat),
{
    let mut key = "library.roots.".to_owned();
    key.append(decimal_of(index as u128).as_str());
    key
}

/// A library root that is not absolute is wrong.
pub open spec fn root_findings(roots: Seq<Seq<char>>) -> Seq<Finding>
    decreases roots.len(),
{
    if roots.len() == 0 {
        Seq::empty()
    } else {
        root_findings(roots.drop_last()) + when(
            !crate::paths::absolute(roots.last()),
            error(
                root_key((roots.len() - 1) as nat),
                "library root `"@ + roots.last() + "` must be an absolute path"@,
            ),
        )
    }
}

/// What is wrong with the library's settings.
pub open spec fn library_findings(library: LibraryConfig, arrs: nat) -> Seq<Finding> {
    root_findings(crate::text::texts(library.roots@)) + when(
        arrs == 0 && library.roots@.len() == 0,
        global_warning(
            "no candidate source is configured (`[[arr]]` or `library.roots`); correct for a fresh install, but SeedMedic will not find anything to repair until one is set"@,
        ),
    )
}

fn library_problems(library: &LibraryConfig, arrs: usize) -> (r: Vec<Problem>)
    ensures
        findings(r@) == library_findings(*library, arrs as nat),
{
    let ghost all = crate::text::texts(library.roots@);
    let mut list: Vec<Problem> = Vec::new();
    let mut i: usize = 0;
    assert(findings(list@) =~= root_findings(all.take(0)));
    while i < library.roots.len()
        invariant
            i <= library.roots@.len(),
            all == crate::text::texts(library.roots@),
            findings(list@) == root_findings(all.take(i as int)),
        decreases library.roots@.len() - i,
    {
        proof {
            assert(all.take(i + 1).drop_last() =~= all.take(i as int));
            assert(all.take(i + 1).last() == library.roots@[i as int]@);
        }
        let message = phrase(
            "library root `",
            library.roots[i].as_str(),
            "` must be an absolute path",
        );
        report(
            &mut list,
            !is_absolute(library.roots[i].as_str()),
            Problem::error(key_of_root(i).as_str(), message.as_str()),
        );
        i += 1;
    }
    assert(all.take(i as int) =~= all);
    report(
        &mut list,
        arrs == 0 && library.roots.len() == 0,
        Problem::global_warning(
            "no candidate source is configured (`[[arr]]` or `library.roots`); correct for a fresh install, but SeedMedic will not find anything to repair until one is set",
        ),
    );
    list
}

/// A private tracker still bans for hammering, regardless of how the interval
/// got set this low.
pub const MIN_TRACKER_POLL_SECONDS: u64 = 60;

/// What is wrong with how often things are tried.
pub open spec fn retry_findings(policy: PolicyConfig) -> Seq<Finding> {
    when(
        !(policy.prefer_reflink || policy.allow_hardlink || policy.allow_copy),
        global_error(
            "policy permits no materialization strategy; enable at least one of prefer_reflink, allow_copy, allow_hardlink"@,
        ),
    ) + when(
        policy.max_attempts == 0,
        error("policy.max_attempts"@, "policy.max_attempts must be at least 1"@),
    ) + when(
        policy.retry_max_seconds < policy.retry_base_seconds,
        error(
            "policy.retry_max_seconds"@,
            "policy.retry_max_seconds must be at least retry_base_seconds"@,
        ),
    )
}

/// What is wrong with the settings of the recheck.
pub open spec fn recheck_findings(policy: PolicyConfig) -> Seq<Finding> {
    when(
        policy.recheck_poll_max_seconds < policy.recheck_poll_seconds,
        error(
            "policy.recheck_poll_max_seconds"@,
            "policy.recheck_poll_max_seconds must be at least recheck_poll_seconds"@,
        ),
    ) + when(
        policy.recheck_timeout_seconds == 0,
        error(
            "policy.recheck_timeout_seconds"@,
            "policy.recheck_timeout_seconds must be at least 1"@,
        ),
    ) + when(
        0 < policy.recheck_timeout_seconds < policy.recheck_poll_max_seconds,
        warning(
            "policy.recheck_timeout_seconds"@,
            "policy.recheck_timeout_seconds ("@ + crate::text::decimal(
                policy.recheck_timeout_seconds as nat,
            ) + ") is less than recheck_poll_max_seconds ("@ + crate::text::decimal(
                policy.recheck_poll_max_seconds as nat,
            ) + "); a recheck times out before it can be polled a second time"@,
        ),
    )
}

/// What is wrong with the settings of the matching.
pub open spec fn matching_findings(policy: PolicyConfig) -> Seq<Finding> {
    when(
        policy.verification_pieces == 0,
        warning(
            "policy.verification_pieces"@,
            "policy.verification_pieces is 0, disabling piece verification; no match can exceed `probable` confidence"@,
        ),
    ) + when(
        policy.min_match_confidence is Exact,
        warning(
            "policy.min_match_confidence"@,
            "policy.min_match_confidence = \"exact\" requires piece-verified matches; until docs/todos/0005-media-matching.md lands, no candidate can reach that confidence, so every repair will park for review"@,
        ),
    )
}

/// What is wrong with how often the tracker is asked.
pub open spec fn poll_findings(policy: PolicyConfig) -> Seq<Finding> {
    when(
        policy.max_consecutive_unknown_tracker_status == 0,
        error(
            "policy.max_consecutive_unknown_tracker_status"@,
            "policy.max_consecutive_unknown_tracker_status must be at least 1"@,
        ),
    ) + when(
        policy.tracker_poll_min_seconds > policy.tracker_poll_seconds,
        error(
            "policy.tracker_poll_min_seconds"@,
            "policy.tracker_poll_min_seconds must be at most tracker_poll_seconds"@,
        ),
    ) + when(
        policy.tracker_poll_seconds < MIN_TRACKER_POLL_SECONDS,
        error(
            "policy.tracker_poll_seconds"@,
            "policy.tracker_poll_seconds ("@ + crate::text::decimal(
                policy.tracker_poll_seconds as nat,
            )
                + ") is below the minimum of 60s; polling a private tracker this often risks a ban"@,
        ),
    )
}

fn retry_problems(policy: &PolicyConfig) -> (r: Vec<Problem>)
    ensures
        findings(r@) == retry_findings(*policy),
{
    let mut list: Vec<Problem> = Vec::new();
    // Permitting nothing is not a safety setting, it is a repair that can
    // never happen. Say so at startup rather than on the first job.
    report(
        &mut list,
        !(policy.prefer_reflink || policy.allow_hardlink || policy.allow_copy),
        Problem::global_error(
            "policy permits no materialization strategy; enable at least one of prefer_reflink, allow_copy, allow_hardlink",
        ),
    );
    report(
        &mut list,
        policy.max_attempts == 0,
        Problem::error("policy.max_attempts", "policy.max_attempts must be at least 1"),
    );
    report(
        &mut list,
        policy.retry_max_seconds < policy.retry_base_seconds,
        Problem::error(
            "policy.retry_max_seconds",
            "policy.retry_max_seconds must be at least retry_base_seconds",
        ),
    );
    assert(findings(list@) =~= retry_findings(*policy));
    list
}

fn recheck_problems(policy: &PolicyConfig) -> (r: Vec<Problem>)
    ensures
        findings(r@) == recheck_findings(*policy),
{
    let mut list: Vec<Problem> = Vec::new();
    report(
        &mut list,
        policy.recheck_poll_max_seconds < policy.recheck_poll_seconds,
        Problem::error(
            "policy.recheck_poll_max_seconds",
            "policy.recheck_poll_max_seconds must be at least recheck_poll_seconds",
        ),
    );
    report(
        &mut list,
        policy.recheck_timeout_seconds == 0,
        Problem::error(
            "policy.recheck_timeout_seconds",
            "policy.recheck_timeout_seconds must be at least 1",
        ),
    );
    let mut slow = phrase(
        "policy.recheck_timeout_seconds (",
        number(policy.recheck_timeout_seconds).as_str(),
        ") is less than recheck_poll_max_seconds (",
    );
    slow.append(number(policy.recheck_poll_max_seconds).as_str());
    slow.append("); a recheck times out before it can be polled a second time");
    report(
        &mut list,
        0 < policy.recheck_timeout_seconds && policy.recheck_timeout_seconds
            < policy.recheck_poll_max_seconds,
        Problem::warning("policy.recheck_timeout_seconds", slow.as_str()),
    );
    assert(findings(list@) =~= recheck_findings(*policy));
    list
}

fn matching_problems(policy: &PolicyConfig) -> (r: Vec<Problem>)
    ensures
        findings(r@) == matching_findings(*policy),
{
    let mut list: Vec<Problem> = Vec::new();
    report(
        &mut list,
        policy.verification_pieces == 0,
        Problem::warning(
            "policy.verification_pieces",
            "policy.verification_pieces is 0, disabling piece verification; no match can exceed `probable` confidence",
        ),
    );
    report(
        &mut list,
        policy.min_match_confidence == MatchConfidence::Exact,
        Problem::warning(
            "policy.min_match_confidence",
            "policy.min_match_confidence = \"exact\" requires piece-verified matches; until docs/todos/0005-media-matching.md lands, no candidate can reach that confidence, so every repair will park for review",
        ),
    );
    assert(findings(list@) =~= matching_findings(*policy));
    list
}

fn poll_problems(policy: &PolicyConfig) -> (r: Vec<Problem>)
    ensures
        findings(r@) == poll_findings(*policy),
{
    let mut list: Vec<Problem> = Vec::new();
    report(
        &mut list,
        policy.max_consecutive_unknown_tracker_status == 0,
        Problem::error(
            "policy.max_consecutive_unknown_tracker_status",
            "policy.max_consecutive_unknown_tracker_status must be at least 1",
        ),
    );
    report(
        &mut list,
        policy.tracker_poll_min_seconds > policy.tracker_poll_seconds,
        Problem::error(
            "policy.tracker_poll_min_seconds",
            "policy.tracker_poll_min_seconds must be at most tracker_poll_seconds",
        ),
    );
    let often = phrase(
        "policy.tracker_poll_seconds (",
        number(policy.tracker_poll_seconds).as_str(),
        ") is below the minimum of 60s; polling a private tracker this often risks a ban",
    );
    report(
        &mut list,
        policy.tracker_poll_seconds < MIN_TRACKER_POLL_SECONDS,
        Problem::error("policy.tracker_poll_seconds", often.as_str()),
    );
    assert(findings(list@) =~= poll_findings(*policy));
    list
}

/// What is wrong with the worker's settings.
pub open spec fn worker_findings(worker: WorkerSettings) -> Seq<Finding> {
    when(
        worker.batch_size < 1,
        error("worker.batch_size"@, "worker.batch_size must be at least 1"@),
    ) + when(
        worker.lease_seconds == 0,
        error("worker.lease_seconds"@, "worker.lease_seconds must be at least 1"@),
    ) + when(
        blank(worker.owner@),
        error("worker.owner"@, "worker.owner must not be empty"@),
    )
}

fn worker_problems(worker: &WorkerSettings) -> (r: Vec<Problem>)
    ensures
        findings(r@) == worker_findings(*worker),
{
    let mut list: Vec<Problem> = Vec::new();
    report(
        &mut list,
        worker.batch_size < 1,
        Problem::error("worker.batch_size", "worker.batch_size must be at least 1"),
    );
    report(
        &mut list,
        worker.lease_seconds == 0,
        Problem::error("worker.lease_seconds", "worker.lease_seconds must be at least 1"),
    );
    report(
        &mut list,
        is_blank(worker.owner.as_str()),
        Problem::error("worker.owner", "worker.owner must not be empty"),
    );
    assert(findings(list@) =~= worker_findings(*worker));
    list
}

/// What is wrong with the download client's settings.
pub open spec fn client_findings(client: Option<DownloadClientConfig>, build: Build) -> Seq<Finding> {
    match client {
        None => seq![
            global_warning(
                "no download_client is configured; correct for a fresh install, but no repair can be seeded until one is set \u{2014} see /settings"@,
            ),
        ],
        Some(client) => when(
            client.base_url@ == PLACEHOLDER_URL@,
            warning(
                "download_client.base_url"@,
                "download_client.base_url is still the http://localhost placeholder"@,
            ),
        ) + when(
            client.kind is Fake && !build.fakes,
            error(
                "download_client.kind"@,
                "download_client is configured as `fake`, but this build has the `fakes` feature disabled"@,
            ),
        ),
    }
}

fn client_problems(client: &Option<DownloadClientConfig>, build: Build) -> (r: Vec<Problem>)
    ensures
        findings(r@) == client_findings(*client, build),
{
    let mut list: Vec<Problem> = Vec::new();
    match client {
        None => {
            report(
                &mut list,
                true,
                Problem::global_warning(
                    "no download_client is configured; correct for a fresh install, but no repair can be seeded until one is set \u{2014} see /settings",
                ),
            );
        },
        Some(client) => {
            report(
                &mut list,
                same(client.base_url.as_str(), PLACEHOLDER_URL),
                Problem::warning(
                    "download_client.base_url",
                    "download_client.base_url is still the http://localhost placeholder",
                ),
            );
            report(
                &mut list,
                client.kind == DownloadClientKind::Fake && !build.fakes,
                Problem::error(
                    "download_client.kind",
                    "download_client is configured as `fake`, but this build has the `fakes` feature disabled",
                ),
            );
        },
    }
    assert(findings(list@) =~= client_findings(*client, build));
    list
}

/// The names of the *arr instances.
pub open spec fn arr_names(arr: Seq<ArrConfig>) -> Seq<Seq<char>> {
    arr.map_values(|instance: ArrConfig| instance.name@)
}

fn names_of_arrs(arr: &Vec<ArrConfig>) -> (r: Vec<String>)
    ensures
        crate::text::texts(r@) == arr_names(arr@),
{
    let mut names: Vec<String> = Vec::new();
    let mut i: usize = 0;
    while i < arr.len()
        invariant
            i <= arr@.len(),
            crate::text::texts(names@) =~= arr_names(arr@.take(i as int)),
        decreases arr@.len() - i,
    {
        push_text(&mut names, arr[i].name.as_str());
        assert(arr_names(arr@.take(i + 1)) =~= arr_names(arr@.take(i as int)).push(
            arr@[i as int].name@,
        ));
        i += 1;
    }
    assert(arr@.take(i as int) =~= arr@);
    names
}

/// What a URL is written with before its first colon.
pub open spec fn scheme(url: Seq<char>) -> Seq<char> {
    crate::text::fields(url, ':')[0]
}

/// What is wrong with the webhook.
pub open spec fn webhook_findings(notifications: NotificationsConfig) -> Seq<Finding> {
    match notifications.webhook_url {
        None => Seq::empty(),
        Some(url) => when(
            scheme(url@) != "http"@ && scheme(url@) != "https"@,
            error(
                "notifications.webhook_url"@,
                "notifications.webhook_url `"@ + url@ + "` must be http or https, not `"@ + scheme(
                    url@,
                ) + "`"@,
            ),
        ),
    }
}

fn webhook_problems(notifications: &NotificationsConfig) -> (r: Vec<Problem>)
    ensures
        findings(r@) == webhook_findings(*notifications),
{
    let mut list: Vec<Problem> = Vec::new();
    match &notifications.webhook_url {
        None => {},
        Some(url) => {
            let pieces = split(url.as_str(), ':');
            let first = pieces[0].as_str();
            assert(first@ == crate::text::texts(pieces@)[0]);
            let mut message = phrase(
                "notifications.webhook_url `",
                url.as_str(),
                "` must be http or https, not `",
            );
            message.append(first);
            message.append("`");
            report(
                &mut list,
                !same(first, "http") && !same(first, "https"),
                Problem::error("notifications.webhook_url", message.as_str()),
            );
        },
    }
    assert(findings(list@) =~= webhook_findings(*notifications));
    list
}

impl Config {
    /// What is wrong with the configuration, findable without looking at
    /// anything else.
    pub open spec fn findings(self, build: Build, bind: Result<(), String>) -> Seq<Finding> {
        server_findings(self, bind) + tracker_findings(self.trackers@, build) + staging_findings(
            self.staging,
        ) + library_findings(self.library, self.arr@.len()) + retry_findings(self.policy)
            + recheck_findings(self.policy) + matching_findings(self.policy) + poll_findings(
            self.policy,
        ) + worker_findings(self.worker) + client_findings(self.download_client, build)
            + names_findings("arr"@, "name"@, arr_names(self.arr@)) + webhook_findings(
            self.notifications,
        )
    }

    /// Every problem findable without I/O of any kind. `bind` is whether the
    /// address to bind to is a socket address, or why not.
    pub fn problems(&self, build: Build, bind: &Result<(), String>) -> (r: Vec<Problem>)
        ensures
            findings(r@) == self.findings(build, *bind),
    {
        let mut list = server_problems(self, bind);
        append(&mut list, tracker_problems(&self.trackers, build));
        append(&mut list, staging_problems(&self.staging));
        append(&mut list, library_problems(&self.library, self.arr.len()));
        append(&mut list, retry_problems(&self.policy));
        append(&mut list, recheck_problems(&self.policy));
        append(&mut list, matching_problems(&self.policy));
        append(&mut list, poll_problems(&self.policy));
        append(&mut list, worker_problems(&self.worker));
        append(&mut list, client_problems(&self.download_client, build));
        append(&mut list, repeated_name_problems("arr", "name", &names_of_arrs(&self.arr)));
        append(&mut list, webhook_problems(&self.notifications));
        list
    }

    /// Reject anything that would make the system unsafe or useless.
    pub fn validate(&self, build: Build, bind: &Result<(), String>) -> (r: Result<(), ConfigError>)
        ensures
            judged(self.findings(build, *bind), r),
    {
        as_result(&self.problems(build, bind))
    }
}

// ---------------------------------------------------------------------------
// What a list of problems comes to
// ---------------------------------------------------------------------------

/// The messages of the problems that are that severe.
pub open spec fn messages(findings: Seq<Finding>, severity: Severity) -> Seq<Seq<char>>
    decreases findings.len(),
{
    if findings.len() == 0 {
        Seq::empty()
    } else if findings.last().severity == severity {
        messages(findings.drop_last(), severity).push(findings.last().message)
    } else {
        messages(findings.drop_last(), severity)
    }
}

/// Errors fail, all of them together in one message; warnings never do.
pub open spec fn judged(findings: Seq<Finding>, r: Result<(), ConfigError>) -> bool {
    match r {
        Ok(()) => messages(findings, Severity::Error).len() == 0,
        Err(ConfigError::Invalid(message)) => messages(findings, Severity::Error).len() > 0
            && message@ == crate::text::joined(messages(findings, Severity::Error), '\n'),
        Err(_) => false,
    }
}

/// The messages of the problems that are that severe.
pub fn messages_of(problems: &Vec<Problem>, severity: Severity) -> (r: Vec<String>)
    ensures
        crate::text::texts(r@) == messages(findings(problems@), severity),
{
    let ghost all = findings(problems@);
    let mut out: Vec<String> = Vec::new();
    let mut i: usize = 0;
    assert(crate::text::texts(out@) =~= messages(all.take(0), severity));
    while i < problems.len()
        invariant
            i <= problems@.len(),
            all == findings(problems@),
            crate::text::texts(out@) == messages(all.take(i as int), severity),
        decreases problems@.len() - i,
    {
        let ghost before = crate::text::texts(out@);
        proof {
            assert(all.take(i + 1).drop_last() =~= all.take(i as int));
            assert(all.take(i + 1).last() == problems@[i as int]@);
        }
        if problems[i].severity == severity {
            out.push(problems[i].message.clone());
            assert(crate::text::texts(out@) =~= before.push(problems@[i as int].message@));
        }
        i += 1;
    }
    assert(all.take(i as int) =~= all);
    out
}

/// Every error-severity problem, joined into a single message. Warnings never
/// fail validation.
pub fn as_result(problems: &Vec<Problem>) -> (r: Result<(), ConfigError>)
    ensures
        judged(findings(problems@), r),
{
    let errors = messages_of(problems, Severity::Error);
    assert(crate::text::texts(errors@).len() == errors@.len());
    if errors.len() == 0 {
        Ok(())
    } else {
        Err(ConfigError::Invalid(join(errors.as_slice(), '\n')))
    }
}

// ---------------------------------------------------------------------------
// Findable only by looking at the filesystem
// ---------------------------------------------------------------------------

/// What was found on disk.
pub struct OnDisk {
    /// Whether each library root is a readable directory, or why not.
    pub roots: Vec<Result<(), String>>,
    /// The staging root, resolved as far as it exists.
    pub staging: String,
    /// The library roots, resolved as far as they exist.
    pub libraries: Vec<String>,
    /// Which of the [`ancestors`] of the staging root exist.
    pub existing: Vec<bool>,
    /// Whether the nearest one that exists can be written to.
    pub writable: bool,
}

/// A tracker that needs an API key must have one.
pub open spec fn api_key_findings(trackers: Seq<TrackerConfig>) -> Seq<Finding>
    decreases trackers.len(),
{
    if trackers.len() == 0 {
        Seq::empty()
    } else {
        api_key_findings(trackers.drop_last()) + when(
            trackers.last().kind is Unit3d && trackers.last().api_key.hidden().len() == 0,
            error(
                indexed("trackers"@, (trackers.len() - 1) as nat, "api_key"@),
                "tracker `"@ + trackers.last().id@
                    + "` is a unit3d tracker and needs an api_key, set inline, via api_key_file, or via SEEDMEDIC_TRACKER_"@
                    + super::secret::shouted(trackers.last().id@) + "_API_KEY"@,
            ),
        )
    }
}

/// An *arr instance must have an API key.
pub open spec fn arr_key_findings(arr: Seq<ArrConfig>) -> Seq<Finding>
    decreases arr.len(),
{
    if arr.len() == 0 {
        Seq::empty()
    } else {
        arr_key_findings(arr.drop_last()) + when(
            arr.last().api_key.hidden().len() == 0,
            error(
                indexed("arr"@, (arr.len() - 1) as nat, "api_key"@),
                "arr instance `"@ + arr.last().name@
                    + "` needs an api_key, set inline, via api_key_file, or via SEEDMEDIC_ARR_"@
                    + super::secret::shouted(arr.last().name@) + "_API_KEY"@,
            ),
        )
    }
}

/// A download client that needs credentials must have them.
pub open spec fn credential_findings(client: Option<DownloadClientConfig>) -> Seq<Finding> {
    match client {
        None => Seq::empty(),
        Some(client) => when(
            client.kind is QBittorrent && (client.username@.len() == 0
                || client.password.hidden().len() == 0),
            error(
                "download_client"@,
                "download_client.kind = \"qbittorrent\" needs both username and password; password may be set inline, via password_file, or via SEEDMEDIC_DOWNLOAD_CLIENT_PASSWORD"@,
            ),
        ),
    }
}

/// A library root must be a readable directory.
pub open spec fn readable_findings(roots: Seq<Seq<char>>, readable: Seq<Result<(), String>>) -> Seq<
    Finding,
>
    decreases roots.len(),
{
    if roots.len() == 0 {
        Seq::empty()
    } else {
        readable_findings(roots.drop_last(), readable.drop_last()) + when(
            readable.last() is Err,
            error(
                root_key((roots.len() - 1) as nat),
                "library root `"@ + roots.last() + "` is not a readable directory: "@
                    + readable.last()->Err_0@,
            ),
        )
    }
}

/// Where the staging root and a library overlap, or it is not absolute.
pub open spec fn overlap_message(root: Seq<char>, disk: OnDisk) -> Option<Seq<char>> {
    if !crate::paths::absolute(root) {
        Some("staging root must be an absolute path, got "@ + root)
    } else if crate::staging::domain::separate(disk.staging@, disk.libraries@) {
        None
    } else {
        let i = choose|i: int|
            crate::staging::domain::first_overlap(disk.staging@, disk.libraries@, i);
        Some(
            "staging root "@ + disk.staging@ + " overlaps media library root "@
                + disk.libraries@[i]@ + "; staging must be a separate directory"@,
        )
    }
}

/// What is wrong with where the staging root lies.
pub open spec fn location_findings(root: Seq<char>, disk: OnDisk) -> Seq<Finding> {
    if root.len() == 0 {
        Seq::empty()
    } else {
        when(
            overlap_message(root, disk) is Some,
            error("staging.root"@, overlap_message(root, disk)->0),
        ) + when(
            !disk.writable,
            error(
                "staging.root"@,
                "staging.root `"@ + root + "` is not writable: `"@ + nearest(
                    crate::paths::above(root),
                    disk.existing@,
                ) + "` denies write access"@,
            ),
        )
    }
}

/// Metrics that are wanted in a build without them.
pub open spec fn metrics_findings(enabled: bool, build: Build) -> Seq<Finding> {
    when(
        enabled && !build.metrics,
        warning(
            "metrics.enabled"@,
            "metrics.enabled = true, but this build does not have the `metrics` feature; no metrics will be collected"@,
        ),
    )
}

/// The first of the paths that exists; the last one where none does.
pub open spec fn nearest(paths: Seq<Seq<char>>, existing: Seq<bool>) -> Seq<char>
    decreases paths.len(),
{
    if paths.len() == 0 {
        Seq::empty()
    } else if paths.len() == 1 || existing[0] {
        paths[0]
    } else {
        nearest(paths.drop_first(), existing.drop_first())
    }
}

/// Walk upward until an existing path is found.
pub fn nearest_existing_ancestor(paths: &Vec<String>, existing: &Vec<bool>) -> (r: String)
    requires
        paths@.len() > 0,
        existing@.len() == paths@.len(),
    ensures
        r@ == nearest(crate::text::texts(paths@), existing@),
{
    let ghost all = crate::text::texts(paths@);
    let len: usize = paths.len();
    let mut i: usize = 0;
    assert(all.skip(0) =~= all);
    assert(existing@.skip(0) =~= existing@);
    while i < len - 1
        invariant
            i < len == paths@.len() == existing@.len(),
            all == crate::text::texts(paths@),
            nearest(all, existing@) == nearest(all.skip(i as int), existing@.skip(i as int)),
        decreases len - i,
    {
        assert(all.skip(i as int)[0] == paths@[i as int]@);
        assert(all.skip(i as int).drop_first() =~= all.skip(i + 1));
        assert(existing@.skip(i as int).drop_first() =~= existing@.skip(i + 1));
        if existing[i] {
            return paths[i].clone();
        }
        i += 1;
    }
    assert(all.skip(i as int)[0] == paths@[i as int]@);
    paths[i].clone()
}

/// A bit of a file's mode is set.
pub open spec fn mode_bit(mode: u32, bit: int) -> bool {
    (mode as int / bit) % 2 == 1
}

/// A process may write to a directory: the superuser always, the owner by the
/// owner's bit, the group by the group's, and anybody else by the last.
pub open spec fn may_write(uid: u32, gid: u32, owner: u32, group: u32, mode: u32) -> bool {
    if uid == 0 {
        true
    } else if owner == uid {
        mode_bit(mode, 128)
    } else if group == gid {
        mode_bit(mode, 16)
    } else {
        mode_bit(mode, 2)
    }
}

/// Whether a process of that user and group may write to a directory of that
/// owner, group and mode.
pub fn directory_is_writable(uid: u32, gid: u32, owner: u32, group: u32, mode: u32) -> (r: bool)
    ensures
        r == may_write(uid, gid, owner, group, mode),
{
    if uid == 0 {
        return true;
    }
    assert((mode & 0x80 != 0) == ((mode / 128) % 2 == 1)) by (bit_vector);
    assert((mode & 0x10 != 0) == ((mode / 16) % 2 == 1)) by (bit_vector);
    assert((mode & 0x02 != 0) == ((mode / 2) % 2 == 1)) by (bit_vector);
    if owner == uid {
        return mode & 0x80 != 0;
    }
    if group == gid {
        return mode & 0x10 != 0;
    }
    mode & 0x02 != 0
}

fn api_key_problems(trackers: &Vec<TrackerConfig>) -> (r: Vec<Problem>)
    ensures
        findings(r@) == api_key_findings(trackers@),
{
    let mut list: Vec<Problem> = Vec::new();
    let mut i: usize = 0;
    assert(findings(list@) =~= api_key_findings(trackers@.take(0)));
    while i < trackers.len()
        invariant
            i <= trackers@.len(),
            findings(list@) == api_key_findings(trackers@.take(i as int)),
        decreases trackers@.len() - i,
    {
        assert(trackers@.take(i + 1).drop_last() =~= trackers@.take(i as int));
        let mut message = phrase(
            "tracker `",
            trackers[i].id.as_str(),
            "` is a unit3d tracker and needs an api_key, set inline, via api_key_file, or via SEEDMEDIC_TRACKER_",
        );
        message.append(shouty(trackers[i].id.as_str()).as_str());
        message.append("_API_KEY");
        let wrong: bool = trackers[i].kind == TrackerKind::Unit3d && trackers[i].api_key.is_empty();
        report(
            &mut list,
            wrong,
            Problem::error(index_key("trackers", i, "api_key").as_str(), message.as_str()),
        );
        i += 1;
    }
    assert(trackers@.take(i as int) =~= trackers@);
    list
}

fn arr_key_problems(arr: &Vec<ArrConfig>) -> (r: Vec<Problem>)
    ensures
        findings(r@) == arr_key_findings(arr@),
{
    let mut list: Vec<Problem> = Vec::new();
    let mut i: usize = 0;
    assert(findings(list@) =~= arr_key_findings(arr@.take(0)));
    while i < arr.len()
        invariant
            i <= arr@.len(),
            findings(list@) == arr_key_findings(arr@.take(i as int)),
        decreases arr@.len() - i,
    {
        assert(arr@.take(i + 1).drop_last() =~= arr@.take(i as int));
        let mut message = phrase(
            "arr instance `",
            arr[i].name.as_str(),
            "` needs an api_key, set inline, via api_key_file, or via SEEDMEDIC_ARR_",
        );
        message.append(shouty(arr[i].name.as_str()).as_str());
        message.append("_API_KEY");
        report(
            &mut list,
            arr[i].api_key.is_empty(),
            Problem::error(index_key("arr", i, "api_key").as_str(), message.as_str()),
        );
        i += 1;
    }
    assert(arr@.take(i as int) =~= arr@);
    list
}

fn credential_problems(client: &Option<DownloadClientConfig>) -> (r: Vec<Problem>)
    ensures
        findings(r@) == credential_findings(*client),
{
    let mut list: Vec<Problem> = Vec::new();
    match client {
        None => {},
        Some(client) => {
            let wrong: bool = client.kind == DownloadClientKind::QBittorrent && (
            client.username.as_str().is_empty() || client.password.is_empty());
            report(
                &mut list,
                wrong,
                Problem::error(
                    "download_client",
                    "download_client.kind = \"qbittorrent\" needs both username and password; password may be set inline, via password_file, or via SEEDMEDIC_DOWNLOAD_CLIENT_PASSWORD",
                ),
            );
        },
    }
    assert(findings(list@) =~= credential_findings(*client));
    list
}

fn readable_problems(roots: &Vec<String>, readable: &Vec<Result<(), String>>) -> (r: Vec<Problem>)
    requires
        readable@.len() == roots@.len(),
    ensures
        findings(r@) == readable_findings(crate::text::texts(roots@), readable@),
{
    let ghost all = crate::text::texts(roots@);
    let mut list: Vec<Problem> = Vec::new();
    let mut i: usize = 0;
    assert(findings(list@) =~= readable_findings(all.take(0), readable@.take(0)));
    while i < roots.len()
        invariant
            i <= roots@.len() == readable@.len(),
            all == crate::text::texts(roots@),
            findings(list@) == readable_findings(all.take(i as int), readable@.take(i as int)),
        decreases roots@.len() - i,
    {
        proof {
            assert(all.take(i + 1).drop_last() =~= all.take(i as int));
            assert(readable@.take(i + 1).drop_last() =~= readable@.take(i as int));
            assert(all.take(i + 1).last() == roots@[i as int]@);
        }
        match &readable[i] {
            Ok(()) => {
                assert(findings(list@) =~= readable_findings(
                    all.take(i + 1),
                    readable@.take(i + 1),
                ));
            },
            Err(why) => {
                let mut message = phrase(
                    "library root `",
                    roots[i].as_str(),
                    "` is not a readable directory: ",
                );
                message.append(why.as_str());
                report(
                    &mut list,
                    true,
                    Problem::error(key_of_root(i).as_str(), message.as_str()),
                );
            },
        }
        i += 1;
    }
    assert(all.take(i as int) =~= all);
    assert(readable@.take(i as int) =~= readable@);
    list
}

fn location_problems(root: &str, disk: &OnDisk) -> (r: Vec<Problem>)
    requires
        root@.len() > 0 ==> disk.existing@.len() == crate::paths::above(root@).len(),
    ensures
        findings(r@) == location_findings(root@, *disk),
{
    let mut list: Vec<Problem> = Vec::new();
    if root.is_empty() {
        assert(findings(list@) =~= location_findings(root@, *disk));
        return list;
    }
    match StagingRoot::check_overlap(root, disk.staging.as_str(), &disk.libraries) {
        Ok(()) => {},
        Err(error) => {
            proof {
                crate::staging::domain::the_first_overlap_is_one(disk.staging@, disk.libraries@);
            }
            report(
                &mut list,
                true,
                Problem::error("staging.root", error.message().as_str()),
            );
        },
    }
    let paths = ancestors(root);
    assert(crate::text::texts(paths@).len() == paths@.len());
    let ancestor = nearest_existing_ancestor(&paths, &disk.existing);
    let mut message = phrase("staging.root `", root, "` is not writable: `");
    message.append(ancestor.as_str());
    message.append("` denies write access");
    report(&mut list, !disk.writable, Problem::error("staging.root", message.as_str()));
    assert(findings(list@) =~= location_findings(root@, *disk));
    list
}

impl Config {
    /// What is wrong with the configuration, findable only on disk.
    pub open spec fn disk_findings(self, build: Build, disk: OnDisk) -> Seq<Finding> {
        api_key_findings(self.trackers@) + credential_findings(self.download_client)
            + arr_key_findings(self.arr@) + readable_findings(
            crate::text::texts(self.library.roots@),
            disk.roots@,
        ) + location_findings(self.staging.root@, disk) + metrics_findings(
            self.metrics.enabled,
            build,
        )
    }

    /// Everything that there is to look at was looked at.
    pub open spec fn looked_at(self, disk: OnDisk) -> bool {
        &&& disk.roots@.len() == self.library.roots@.len()
        &&& self.staging.root@.len() > 0 ==> disk.existing@.len() == crate::paths::above(
            self.staging.root@,
        ).len()
    }

    /// Every problem that needs the filesystem. What was found there is
    /// `disk`; nothing is written to it.
    pub fn problems_on_disk(&self, build: Build, disk: &OnDisk) -> (r: Vec<Problem>)
        requires
            self.looked_at(*disk),
        ensures
            findings(r@) == self.disk_findings(build, *disk),
    {
        let mut list = api_key_problems(&self.trackers);
        append(&mut list, credential_problems(&self.download_client));
        append(&mut list, arr_key_problems(&self.arr));
        append(&mut list, readable_problems(&self.library.roots, &disk.roots));
        append(&mut list, location_problems(self.staging.root.as_str(), disk));
        report(
            &mut list,
            self.metrics.enabled && !build.metrics,
            Problem::warning(
                "metrics.enabled",
                "metrics.enabled = true, but this build does not have the `metrics` feature; no metrics will be collected",
            ),
        );
        list
    }

    /// Deeper checks that need the filesystem. The warnings on success; a
    /// configuration that cannot work at all is an error.
    pub fn validate_runtime(&self, build: Build, disk: &OnDisk) -> (r: Result<
        Vec<String>,
        ConfigError,
    >)
        requires
            self.looked_at(*disk),
        ensures
            match r {
                Ok(warnings) => {
                    &&& judged(self.disk_findings(build, *disk), Ok(()))
                    &&& crate::text::texts(warnings@) == messages(
                        self.disk_findings(build, *disk),
                        Severity::Warning,
                    )
                },
                Err(error) => judged(self.disk_findings(build, *disk), Err(error)),
            },
    {
        let problems = self.problems_on_disk(build, disk);
        match as_result(&problems) {
            Ok(()) => Ok(messages_of(&problems, Severity::Warning)),
            Err(error) => Err(error),
        }
    }
}

// ---------------------------------------------------------------------------
// Laws
// ---------------------------------------------------------------------------

/// There is a message for every problem that is that severe, and for no other.
proof fn messages_are_of_that_severity(findings: Seq<Finding>, severity: Severity)
    ensures
        messages(findings, severity).len() == 0 <==> forall|i: int|
            0 <= i < findings.len() ==> (#[trigger] findings[i]).severity != severity,
    decreases findings.len(),
{
    if findings.len() > 0 {
        let rest = findings.drop_last();
        messages_are_of_that_severity(rest, severity);
        assert(findings.last() == findings[findings.len() - 1]);
        if forall|i: int| 0 <= i < rest.len() ==> (#[trigger] rest[i]).severity != severity {
            assert forall|i: int| 0 <= i < findings.len() && i < findings.len() - 1 implies (
            #[trigger] findings[i]).severity != severity by {
                assert(rest[i] == findings[i]);
            }
        } else {
            let i = choose|i: int| 0 <= i < rest.len() && (#[trigger] rest[i]).severity == severity;
            assert(findings[i].severity == severity);
        }
    }
}

/// Warnings never make a configuration fail, and any error does.
pub proof fn only_errors_fail(findings: Seq<Finding>, r: Result<(), ConfigError>)
    requires
        judged(findings, r),
    ensures
        r is Ok <==> forall|i: int|
            0 <= i < findings.len() ==> (#[trigger] findings[i]).severity is Warning,
{
    messages_are_of_that_severity(findings, Severity::Error);
    if r is Ok {
        assert forall|i: int| 0 <= i < findings.len() implies (
        #[trigger] findings[i]).severity is Warning by {
            assert(findings[i].severity != Severity::Error);
        }
    }
}

/// An operator who starts without any configuration is not met with an error.
pub proof fn the_default_configuration_is_startable(
    config: Config,
    build: Build,
    bind: Result<(), String>,
    r: Result<(), ConfigError>,
)
    requires
        config.is_default(),
        bind is Ok,
        judged(config.findings(build, bind), r),
    ensures
        r is Ok,
{
    let all = config.findings(build, bind);
    reveal_strlit("seedmedic");
    assert(config.worker.owner@[0] == 's');
    assert(config.worker.owner@.last() == 'c');
    assert(!blank(config.worker.owner@));
    assert(tracker_ids(config.trackers@) =~= Seq::<Seq<char>>::empty());
    assert(arr_names(config.arr@) =~= Seq::<Seq<char>>::empty());
    assert(crate::text::texts(config.library.roots@) =~= Seq::<Seq<char>>::empty());
    let policy = choose|policy: crate::repair::policy::SafetyPolicy| #[trigger]
        policy.is_default() && super::settings::same_policy(config.policy, policy);
    assert(retry_findings(config.policy).len() == 0);
    assert(recheck_findings(config.policy).len() == 0);
    assert(poll_findings(config.policy).len() == 0);
    assert(worker_findings(config.worker).len() == 0);
    assert(kind_findings(config.trackers@, build.fakes).len() == 0);
    assert forall|i: int| 0 <= i < all.len() implies (#[trigger] all[i]).severity is Warning by {
    }
    messages_are_of_that_severity(all, Severity::Error);
}

proof fn messages_of_both(a: Seq<Finding>, b: Seq<Finding>, severity: Severity)
    ensures
        messages(a + b, severity) == messages(a, severity) + messages(b, severity),
    decreases b.len(),
{
    if b.len() == 0 {
        assert(a + b =~= a);
        assert(messages(a, severity) + messages(b, severity) =~= messages(a, severity));
    } else {
        messages_of_both(a, b.drop_last(), severity);
        assert((a + b).drop_last() =~= a + b.drop_last());
        assert(messages(a + b, severity) =~= messages(a, severity) + messages(b, severity));
    }
}

proof fn message_of_one(holds: bool, finding: Finding, severity: Severity)
    ensures
        messages(when(holds, finding), severity).len() == if holds && finding.severity == severity {
            1nat
        } else {
            0
        },
        messages(Seq::<Finding>::empty(), severity).len() == 0,
        messages(seq![finding], severity).len() == if finding.severity == severity {
            1nat
        } else {
            0
        },
{
    let one = seq![finding];
    assert(one.drop_last() =~= Seq::<Finding>::empty());
    assert(messages(one.drop_last(), severity).len() == 0);
    assert(one.last() == finding);
}

/// How many problems of that severity there are.
pub open spec fn count(findings: Seq<Finding>, severity: Severity) -> nat {
    messages(findings, severity).len()
}

proof fn count_of_both(a: Seq<Finding>, b: Seq<Finding>, severity: Severity)
    ensures
        count(a + b, severity) == count(a, severity) + count(b, severity),
{
    messages_of_both(a, b, severity);
}

proof fn count_of_names(section: Seq<char>, field: Seq<char>, names: Seq<Seq<char>>)
    ensures
        count(names_findings(section, field, names), Severity::Warning) == 0,
        count(names_findings(section, field, names), Severity::Error) == 0 <==> {
            &&& forall|i: int| 0 <= i < names.len() ==> !blank(#[trigger] names[i])
            &&& forall|i: int, j: int|
                0 <= i < j < names.len() ==> super::secret::shouted(#[trigger] names[i])
                    != super::secret::shouted(#[trigger] names[j])
        },
    decreases names.len(),
{
    if names.len() == 0 {
        message_of_one(false, global_error(Seq::empty()), Severity::Error);
        message_of_one(false, global_error(Seq::empty()), Severity::Warning);
    } else {
        let e = names.len() - 1;
        let before = names.drop_last();
        let name = names.last();
        count_of_names(section, field, before);
        let more = name_findings(section, field, before, name);
        count_of_both(names_findings(section, field, before), more, Severity::Error);
        count_of_both(names_findings(section, field, before), more, Severity::Warning);
        let key = indexed(section, before.len(), field);
        let twice = error(key, section + " "@ + field + " `"@ + name + "` is used twice"@);
        first_alike_is_alike(before, name);
        if blank(name) {
            let one = error(key, "every "@ + section + " needs a non-empty `"@ + field + "`"@);
            message_of_one(true, one, Severity::Error);
            message_of_one(true, one, Severity::Warning);
            assert(blank(names[e]));
        } else {
            let (first, second) = (
                when(before.contains(name), twice),
                match first_alike(before, name) {
                    Some(other) => when(
                        other != name,
                        error(
                            key,
                            section + " "@ + field + " `"@ + name + "` and `"@ + other
                                + "` both become `"@ + super::secret::shouted(name)
                                + "` as an environment variable suffix, which collides"@,
                        ),
                    ),
                    None => Seq::empty(),
                },
            );
            count_of_both(first, second, Severity::Error);
            count_of_both(first, second, Severity::Warning);
            message_of_one(before.contains(name), twice, Severity::Error);
            message_of_one(before.contains(name), twice, Severity::Warning);
            match first_alike(before, name) {
                Some(other) => {
                    let collides = error(
                        key,
                        section + " "@ + field + " `"@ + name + "` and `"@ + other
                            + "` both become `"@ + super::secret::shouted(name)
                            + "` as an environment variable suffix, which collides"@,
                    );
                    message_of_one(other != name, collides, Severity::Error);
                    message_of_one(other != name, collides, Severity::Warning);
                },
                None => {},
            }
        }
        assert forall|i: int| 0 <= i < e implies #[trigger] names[i] == before[i] by {}
        let fine = (forall|i: int| 0 <= i < names.len() ==> !blank(#[trigger] names[i])) && (forall|
            i: int,
            j: int,
        |
            0 <= i < j < names.len() ==> super::secret::shouted(#[trigger] names[i])
                != super::secret::shouted(#[trigger] names[j]));
        if fine {
            assert(!blank(names[e]));
            assert forall|i: int| 0 <= i < before.len() implies !blank(#[trigger] before[i]) by {
                assert(before[i] == names[i]);
            }
            assert forall|i: int, j: int| 0 <= i < j < before.len() implies super::secret::shouted(
                #[trigger] before[i],
            ) != super::secret::shouted(#[trigger] before[j]) by {
                assert(before[i] == names[i] && before[j] == names[j]);
            }
            if before.contains(name) {
                let k = choose|k: int| 0 <= k < before.len() && before[k] == name;
                assert(names[k] == names[e]);
                assert(super::secret::shouted(names[k]) != super::secret::shouted(names[e]));
            }
            if first_alike(before, name) is Some {
                let k = choose|k: int|
                    0 <= k < before.len() && !blank(#[trigger] before[k]) && super::secret::shouted(
                        before[k],
                    ) == super::secret::shouted(name);
                assert(super::secret::shouted(names[k]) != super::secret::shouted(names[e]));
            }
        }
        if count(names_findings(section, field, names), Severity::Error) == 0 {
            assert forall|i: int| 0 <= i < names.len() implies !blank(#[trigger] names[i]) by {
                if i < e {
                    assert(!blank(before[i]));
                }
            }
            assert forall|i: int, j: int| 0 <= i < j < names.len() implies super::secret::shouted(
                #[trigger] names[i],
            ) != super::secret::shouted(#[trigger] names[j]) by {
                assert(names[i] == before[i]);
                if j < e {
                    assert(names[j] == before[j]);
                } else if super::secret::shouted(names[i]) == super::secret::shouted(names[j]) {
                    assert(!blank(before[i]));
                    assert(first_alike(before, name) is Some);
                    let other = first_alike(before, name)->0;
                    assert(before.contains(other));
                }
            }
        }
    }
}

proof fn first_alike_is_alike(names: Seq<Seq<char>>, name: Seq<char>)
    ensures
        first_alike(names, name) is Some <==> exists|k: int|
            0 <= k < names.len() && !blank(#[trigger] names[k]) && super::secret::shouted(names[k])
                == super::secret::shouted(name),
        first_alike(names, name) matches Some(other) ==> names.contains(other),
    decreases names.len(),
{
    if names.len() > 0 {
        let rest = names.drop_first();
        if !blank(names[0]) && super::secret::shouted(names[0]) == super::secret::shouted(name) {
            assert(names.contains(names[0]));
        } else {
            first_alike_is_alike(rest, name);
            if first_alike(rest, name) is Some {
                let k = choose|k: int|
                    0 <= k < rest.len() && !blank(#[trigger] rest[k]) && super::secret::shouted(
                        rest[k],
                    ) == super::secret::shouted(name);
                assert(names[k + 1] == rest[k]);
                let other = first_alike(rest, name)->0;
                let m = choose|m: int| 0 <= m < rest.len() && rest[m] == other;
                assert(names[m + 1] == other);
            }
            if exists|k: int|
                0 <= k < names.len() && !blank(#[trigger] names[k]) && super::secret::shouted(
                    names[k],
                ) == super::secret::shouted(name) {
                let k = choose|k: int|
                    0 <= k < names.len() && !blank(#[trigger] names[k]) && super::secret::shouted(
                        names[k],
                    ) == super::secret::shouted(name);
                assert(rest[k - 1] == names[k]);
            }
        }
    }
}

proof fn count_of_kinds(trackers: Seq<TrackerConfig>, fakes: bool)
    ensures
        count(kind_findings(trackers, fakes), Severity::Warning) == 0,
        count(kind_findings(trackers, fakes), Severity::Error) == 0 <==> fakes || forall|i: int|
            0 <= i < trackers.len() ==> (#[trigger] trackers[i]).kind !is Fake,
    decreases trackers.len(),
{
    if trackers.len() == 0 {
        message_of_one(false, global_error(Seq::empty()), Severity::Error);
        message_of_one(false, global_error(Seq::empty()), Severity::Warning);
    } else {
        let front = trackers.drop_last();
        let e = trackers.len() - 1;
        let one = error(
            indexed("trackers"@, (trackers.len() - 1) as nat, "kind"@),
            "tracker `"@ + trackers.last().id@
                + "` is configured as `fake`, but this build has the `fakes` feature disabled"@,
        );
        let wrong = trackers.last().kind is Fake && !fakes;
        count_of_kinds(front, fakes);
        count_of_both(kind_findings(front, fakes), when(wrong, one), Severity::Error);
        count_of_both(kind_findings(front, fakes), when(wrong, one), Severity::Warning);
        message_of_one(wrong, one, Severity::Error);
        message_of_one(wrong, one, Severity::Warning);
        assert forall|i: int| 0 <= i < e implies #[trigger] trackers[i] == front[i] by {}
        if forall|i: int| 0 <= i < trackers.len() ==> (#[trigger] trackers[i]).kind !is Fake {
            assert(trackers[e].kind !is Fake);
            assert forall|i: int| 0 <= i < front.len() implies (
            #[trigger] front[i]).kind !is Fake by {
                assert(trackers[i] == front[i]);
            }
        }
        if !fakes && count(kind_findings(trackers, fakes), Severity::Error) == 0 {
            assert forall|i: int| 0 <= i < trackers.len() implies (
            #[trigger] trackers[i]).kind !is Fake by {
                if i < e {
                    assert(front[i].kind !is Fake);
                }
            }
        }
    }
}

proof fn count_of_roots(roots: Seq<Seq<char>>)
    ensures
        count(root_findings(roots), Severity::Warning) == 0,
        count(root_findings(roots), Severity::Error) == 0 <==> forall|i: int|
            0 <= i < roots.len() ==> (#[trigger] roots[i]).len() > 0 && roots[i][0] == '/',
    decreases roots.len(),
{
    if roots.len() == 0 {
        message_of_one(false, global_error(Seq::empty()), Severity::Error);
        message_of_one(false, global_error(Seq::empty()), Severity::Warning);
    } else {
        let front = roots.drop_last();
        let e = roots.len() - 1;
        let one = error(
            root_key((roots.len() - 1) as nat),
            "library root `"@ + roots.last() + "` must be an absolute path"@,
        );
        let wrong = !crate::paths::absolute(roots.last());
        count_of_roots(front);
        count_of_both(root_findings(front), when(wrong, one), Severity::Error);
        count_of_both(root_findings(front), when(wrong, one), Severity::Warning);
        message_of_one(wrong, one, Severity::Error);
        message_of_one(wrong, one, Severity::Warning);
        assert forall|i: int| 0 <= i < e implies #[trigger] roots[i] == front[i] by {}
        if forall|i: int|
            0 <= i < roots.len() ==> (#[trigger] roots[i]).len() > 0 && roots[i][0] == '/' {
            assert(roots[e].len() > 0 && roots[e][0] == '/');
            assert forall|i: int| 0 <= i < front.len() implies (#[trigger] front[i]).len() > 0
                && front[i][0] == '/' by {
                assert(roots[i] == front[i]);
            }
        }
        if count(root_findings(roots), Severity::Error) == 0 {
            assert forall|i: int| 0 <= i < roots.len() implies (#[trigger] roots[i]).len() > 0
                && roots[i][0] == '/' by {
                if i < e {
                    assert(front[i].len() > 0 && front[i][0] == '/');
                }
            }
        }
    }
}

/// The retry settings are fine exactly where some strategy is permitted, an
/// attempt is allowed and the longest delay is no shorter than the first. The
/// settings of a check: the longest interval no shorter than the first, some time
/// to finish in, and a warning where that is over before the second look. A poll
/// of a tracker: an unclear answer is allowed, the shortest interval is no longer
/// than the usual one, and that is a minute or more.
pub proof fn when_a_policy_is_fine(policy: PolicyConfig)
    ensures
        count(retry_findings(policy), Severity::Error) == 0 <==> {
            &&& policy.prefer_reflink || policy.allow_hardlink || policy.allow_copy
            &&& policy.max_attempts >= 1
            &&& policy.retry_base_seconds <= policy.retry_max_seconds
        },
        count(retry_findings(policy), Severity::Warning) == 0,
        count(recheck_findings(policy), Severity::Error) == 0 <==> {
            &&& policy.recheck_poll_seconds <= policy.recheck_poll_max_seconds
            &&& policy.recheck_timeout_seconds >= 1
        },
        count(recheck_findings(policy), Severity::Warning) == 0 <==> policy.recheck_timeout_seconds
            == 0 || policy.recheck_poll_max_seconds <= policy.recheck_timeout_seconds,
        count(matching_findings(policy), Severity::Error) == 0,
        count(matching_findings(policy), Severity::Warning) == 0 <==> policy.verification_pieces
            >= 1 && policy.min_match_confidence !is Exact,
        count(poll_findings(policy), Severity::Error) == 0 <==> {
            &&& policy.max_consecutive_unknown_tracker_status >= 1
            &&& policy.tracker_poll_min_seconds <= policy.tracker_poll_seconds
            &&& policy.tracker_poll_seconds >= 60
        },
        count(poll_findings(policy), Severity::Warning) == 0,
{
    counting(Severity::Error);
    counting(Severity::Warning);
}

/// A configuration is accepted exactly where all of this holds of it: the address
/// to bind to is one; the trackers have names that differ, also as fragments of
/// environment variables, fake ones are not mixed with others, and none is fake in
/// a build without fakes; the staging root is unset or absolute and the library
/// roots are absolute; the policy is fine; the worker takes at least one job, holds
/// it for at least a second and has a name; the client is not fake in a build
/// without fakes; the instances have names that differ; and the webhook, if any, is
/// reached over http or https.
pub proof fn when_a_configuration_is_accepted(
    config: Config,
    build: Build,
    bind: Result<(), String>,
    r: Result<(), ConfigError>,
)
    requires
        judged(config.findings(build, bind), r),
    ensures
        r is Ok <==> {
            &&& bind is Ok
            &&& forall|i: int|
                0 <= i < config.trackers@.len() ==> !blank((#[trigger] config.trackers@[i]).id@)
            &&& forall|i: int, j: int|
                0 <= i < j < config.trackers@.len() ==> super::secret::shouted(
                    (#[trigger] config.trackers@[i]).id@,
                ) != super::secret::shouted((#[trigger] config.trackers@[j]).id@)
            &&& forall|i: int, j: int|
                0 <= i < config.trackers@.len() && 0 <= j < config.trackers@.len() ==> ((
                #[trigger] config.trackers@[i]).kind is Fake <==> (
                #[trigger] config.trackers@[j]).kind is Fake)
            &&& build.fakes || forall|i: int|
                0 <= i < config.trackers@.len() ==> (#[trigger] config.trackers@[i]).kind !is Fake
            &&& config.staging.root@.len() == 0 || config.staging.root@[0] == '/'
            &&& forall|i: int|
                0 <= i < config.library.roots@.len() ==> (
                #[trigger] config.library.roots@[i])@.len() > 0 && config.library.roots@[i]@[0]
                    == '/'
            &&& count(retry_findings(config.policy), Severity::Error) == 0
            &&& count(recheck_findings(config.policy), Severity::Error) == 0
            &&& count(poll_findings(config.policy), Severity::Error) == 0
            &&& config.worker.batch_size >= 1
            &&& config.worker.lease_seconds >= 1
            &&& !blank(config.worker.owner@)
            &&& config.download_client is Some && config.download_client->0.kind is Fake
                ==> build.fakes
            &&& forall|i: int|
                0 <= i < config.arr@.len() ==> !blank((#[trigger] config.arr@[i]).name@)
            &&& forall|i: int, j: int|
                0 <= i < j < config.arr@.len() ==> super::secret::shouted(
                    (#[trigger] config.arr@[i]).name@,
                ) != super::secret::shouted((#[trigger] config.arr@[j]).name@)
            &&& config.notifications.webhook_url matches Some(url) ==> crate::text::fields(
                url@,
                ':',
            )[0] == "http"@ || crate::text::fields(url@, ':')[0] == "https"@
        },
        r matches Err(error) ==> error is Invalid,
{
    let severity = Severity::Error;
    sections_add_up(config, build, bind, severity);
    when_a_policy_is_fine(config.policy);
    count_of_server(config, bind);
    count_of_trackers(config.trackers@, build);
    count_of_staging(config.staging);
    count_of_library(config.library, config.arr@.len());
    count_of_worker(config.worker);
    count_of_client(config.download_client, build);
    count_of_names("arr"@, "name"@, arr_names(config.arr@));
    count_of_webhook(config.notifications);
    let names = arr_names(config.arr@);
    assert forall|i: int| 0 <= i < names.len() implies #[trigger] names[i]
        == config.arr@[i].name@ by {}
    if forall|i: int| 0 <= i < names.len() ==> !blank(#[trigger] names[i]) {
        assert forall|i: int| 0 <= i < config.arr@.len() implies !blank(
            (#[trigger] config.arr@[i]).name@,
        ) by {
            assert(!blank(names[i]));
        }
    }
    if forall|i: int, j: int|
        0 <= i < j < names.len() ==> super::secret::shouted(#[trigger] names[i])
            != super::secret::shouted(#[trigger] names[j]) {
        assert forall|i: int, j: int| 0 <= i < j < config.arr@.len() implies super::secret::shouted(
            (#[trigger] config.arr@[i]).name@,
        ) != super::secret::shouted((#[trigger] config.arr@[j]).name@) by {
            assert(super::secret::shouted(names[i]) != super::secret::shouted(names[j]));
        }
    }
}

proof fn sections_add_up(config: Config, build: Build, bind: Result<(), String>, severity: Severity)
    ensures
        count(config.findings(build, bind), severity) == count(
            server_findings(config, bind),
            severity,
        ) + count(tracker_findings(config.trackers@, build), severity) + count(
            staging_findings(config.staging),
            severity,
        ) + count(library_findings(config.library, config.arr@.len()), severity) + count(
            retry_findings(config.policy),
            severity,
        ) + count(recheck_findings(config.policy), severity) + count(
            matching_findings(config.policy),
            severity,
        ) + count(poll_findings(config.policy), severity) + count(
            worker_findings(config.worker),
            severity,
        ) + count(client_findings(config.download_client, build), severity) + count(
            names_findings("arr"@, "name"@, arr_names(config.arr@)),
            severity,
        ) + count(webhook_findings(config.notifications), severity),
{
    let s1 = server_findings(config, bind);
    let s2 = s1 + tracker_findings(config.trackers@, build);
    let s3 = s2 + staging_findings(config.staging);
    let s4 = s3 + library_findings(config.library, config.arr@.len());
    let s5 = s4 + retry_findings(config.policy);
    let s6 = s5 + recheck_findings(config.policy);
    let s7 = s6 + matching_findings(config.policy);
    let s8 = s7 + poll_findings(config.policy);
    let s9 = s8 + worker_findings(config.worker);
    let s10 = s9 + client_findings(config.download_client, build);
    let s11 = s10 + names_findings("arr"@, "name"@, arr_names(config.arr@));
    count_of_both(s1, tracker_findings(config.trackers@, build), severity);
    count_of_both(s2, staging_findings(config.staging), severity);
    count_of_both(s3, library_findings(config.library, config.arr@.len()), severity);
    count_of_both(s4, retry_findings(config.policy), severity);
    count_of_both(s5, recheck_findings(config.policy), severity);
    count_of_both(s6, matching_findings(config.policy), severity);
    count_of_both(s7, poll_findings(config.policy), severity);
    count_of_both(s8, worker_findings(config.worker), severity);
    count_of_both(s9, client_findings(config.download_client, build), severity);
    count_of_both(
        s10,
        names_findings("arr"@, "name"@, arr_names(config.arr@)),
        severity,
    );
    count_of_both(s11, webhook_findings(config.notifications), severity);
}

proof fn counting(severity: Severity)
    ensures
        forall|holds: bool, finding: Finding| #[trigger]
            messages(when(holds, finding), severity).len() == if holds && finding.severity
                == severity {
                1nat
            } else {
                0
            },
        forall|finding: Finding| #[trigger]
            messages(seq![finding], severity).len() == if finding.severity == severity {
                1nat
            } else {
                0
            },
        messages(Seq::<Finding>::empty(), severity).len() == 0,
        forall|a: Seq<Finding>, b: Seq<Finding>| #[trigger]
            messages(a + b, severity).len() == messages(a, severity).len() + messages(
                b,
                severity,
            ).len(),
{
    assert forall|holds: bool, finding: Finding| #[trigger]
        messages(when(holds, finding), severity).len() == if holds && finding.severity
            == severity {
            1nat
        } else {
            0
        } by {
        message_of_one(holds, finding, severity);
    }
    assert forall|finding: Finding| #[trigger]
        messages(seq![finding], severity).len() == if finding.severity == severity {
            1nat
        } else {
            0
        } by {
        message_of_one(true, finding, severity);
    }
    assert forall|a: Seq<Finding>, b: Seq<Finding>| #[trigger]
        messages(a + b, severity).len() == messages(a, severity).len() + messages(
            b,
            severity,
        ).len() by {
        messages_of_both(a, b, severity);
    }
    message_of_one(false, global_error(Seq::empty()), severity);
}

proof fn count_of_server(config: Config, bind: Result<(), String>)
    ensures
        count(server_findings(config, bind), Severity::Error) == 0 <==> bind is Ok,
        count(server_findings(config, bind), Severity::Warning) == 0
            <==> config.server.auth_token.hidden().len() > 0,
{
    counting(Severity::Error);
    counting(Severity::Warning);
}

proof fn count_of_staging(staging: StagingConfig)
    ensures
        count(staging_findings(staging), Severity::Error) == 0 <==> staging.root@.len() == 0
            || staging.root@[0] == '/',
        count(staging_findings(staging), Severity::Warning) == 0 <==> staging.root@.len() > 0
            && staging.min_free_bytes > 0,
{
    counting(Severity::Error);
    counting(Severity::Warning);
}

proof fn count_of_library(library: LibraryConfig, arrs: nat)
    ensures
        count(library_findings(library, arrs), Severity::Error) == 0 <==> forall|i: int|
            0 <= i < library.roots@.len() ==> (#[trigger] library.roots@[i])@.len() > 0
                && library.roots@[i]@[0] == '/',
        count(library_findings(library, arrs), Severity::Warning) == 0 <==> arrs > 0
            || library.roots@.len() > 0,
{
    counting(Severity::Error);
    counting(Severity::Warning);
    let roots = crate::text::texts(library.roots@);
    count_of_roots(roots);
    assert forall|i: int| 0 <= i < roots.len() implies #[trigger] roots[i]
        == library.roots@[i]@ by {}
    if forall|i: int|
        0 <= i < roots.len() ==> (#[trigger] roots[i]).len() > 0 && roots[i][0] == '/' {
        assert forall|i: int| 0 <= i < library.roots@.len() implies (
        #[trigger] library.roots@[i])@.len() > 0 && library.roots@[i]@[0] == '/' by {
            assert(roots[i].len() > 0 && roots[i][0] == '/');
        }
    }
}

proof fn count_of_worker(worker: WorkerSettings)
    ensures
        count(worker_findings(worker), Severity::Error) == 0 <==> worker.batch_size >= 1
            && worker.lease_seconds >= 1 && !blank(worker.owner@),
        count(worker_findings(worker), Severity::Warning) == 0,
{
    counting(Severity::Error);
    counting(Severity::Warning);
}

proof fn count_of_client(client: Option<DownloadClientConfig>, build: Build)
    ensures
        count(client_findings(client, build), Severity::Error) == 0 <==> (client is Some
            && client->0.kind is Fake ==> build.fakes),
        count(client_findings(client, build), Severity::Warning) == 0 <==> client is Some
            && client->0.base_url@ != "http://localhost/"@,
{
    counting(Severity::Error);
    counting(Severity::Warning);
}

proof fn count_of_webhook(notifications: NotificationsConfig)
    ensures
        count(webhook_findings(notifications), Severity::Error) == 0 <==> (
        notifications.webhook_url matches Some(url) ==> crate::text::fields(url@, ':')[0]
            == "http"@ || crate::text::fields(url@, ':')[0] == "https"@),
        count(webhook_findings(notifications), Severity::Warning) == 0,
{
    counting(Severity::Error);
    counting(Severity::Warning);
}

proof fn count_of_trackers(trackers: Seq<TrackerConfig>, build: Build)
    ensures
        count(tracker_findings(trackers, build), Severity::Warning) == 0 <==> trackers.len() > 0,
        count(tracker_findings(trackers, build), Severity::Error) == 0 <==> {
            &&& forall|i: int| 0 <= i < trackers.len() ==> !blank((#[trigger] trackers[i]).id@)
            &&& forall|i: int, j: int|
                0 <= i < j < trackers.len() ==> super::secret::shouted(
                    (#[trigger] trackers[i]).id@,
                ) != super::secret::shouted((#[trigger] trackers[j]).id@)
            &&& forall|i: int, j: int|
                0 <= i < trackers.len() && 0 <= j < trackers.len() ==> ((
                #[trigger] trackers[i]).kind is Fake <==> (#[trigger] trackers[j]).kind is Fake)
            &&& build.fakes || forall|i: int|
                0 <= i < trackers.len() ==> (#[trigger] trackers[i]).kind !is Fake
        },
{
    counting(Severity::Error);
    counting(Severity::Warning);
    let names = tracker_ids(trackers);
    count_of_names("trackers"@, "id"@, names);
    count_of_kinds(trackers, build.fakes);
    assert forall|i: int| 0 <= i < names.len() implies #[trigger] names[i] == trackers[i].id@ by {}
    if forall|i: int| 0 <= i < names.len() ==> !blank(#[trigger] names[i]) {
        assert forall|i: int| 0 <= i < trackers.len() implies !blank(
            (#[trigger] trackers[i]).id@,
        ) by {
            assert(!blank(names[i]));
        }
    }
    if forall|i: int, j: int|
        0 <= i < j < names.len() ==> super::secret::shouted(#[trigger] names[i])
            != super::secret::shouted(#[trigger] names[j]) {
        assert forall|i: int, j: int| 0 <= i < j < trackers.len() implies super::secret::shouted(
            (#[trigger] trackers[i]).id@,
        ) != super::secret::shouted((#[trigger] trackers[j]).id@) by {
            assert(super::secret::shouted(names[i]) != super::secret::shouted(names[j]));
        }
    }
}

/// A configuration that is accepted is warned of nothing exactly where nothing is
/// left to set up: a token, a tracker, a staging root with a margin, somewhere to
/// look for files, a client that is not the placeholder, piece verification with a
/// confidence that it can reach, and a check that can be looked at twice.
pub proof fn when_nothing_is_left_to_set_up(config: Config, build: Build, bind: Result<(), String>)
    ensures
        messages(config.findings(build, bind), Severity::Warning).len() == 0 <==> {
            &&& config.server.auth_token.hidden().len() > 0
            &&& config.trackers@.len() > 0
            &&& config.staging.root@.len() > 0
            &&& config.staging.min_free_bytes > 0
            &&& config.arr@.len() > 0 || config.library.roots@.len() > 0
            &&& config.download_client is Some && config.download_client->0.base_url@
                != "http://localhost/"@
            &&& config.policy.verification_pieces >= 1
            &&& config.policy.min_match_confidence !is Exact
            &&& config.policy.recheck_timeout_seconds == 0
                || config.policy.recheck_poll_max_seconds <= config.policy.recheck_timeout_seconds
        },
{
    let severity = Severity::Warning;
    sections_add_up(config, build, bind, severity);
    when_a_policy_is_fine(config.policy);
    count_of_server(config, bind);
    count_of_trackers(config.trackers@, build);
    count_of_staging(config.staging);
    count_of_library(config.library, config.arr@.len());
    count_of_worker(config.worker);
    count_of_client(config.download_client, build);
    count_of_names("arr"@, "name"@, arr_names(config.arr@));
    count_of_webhook(config.notifications);
}

/// Who may write to a directory: root always, its owner by the owner's bit, a
/// member of its group by the group's bit, and anybody else by the last one.
pub proof fn who_may_write(uid: u32, gid: u32, owner: u32, group: u32, mode: u32)
    ensures
        uid == 0 ==> may_write(uid, gid, owner, group, mode),
        uid != 0 && uid == owner ==> (may_write(uid, gid, owner, group, mode) <==> (mode / 128) % 2
            == 1),
        uid != 0 && uid != owner && gid == group ==> (may_write(uid, gid, owner, group, mode) <==> (
        mode / 16) % 2 == 1),
        uid != 0 && uid != owner && gid != group ==> (may_write(uid, gid, owner, group, mode) <==> (
        mode / 2) % 2 == 1),
{
}

/// The nearest place above a path that exists is the first one that does, and the
/// outermost where none does.
pub proof fn the_nearest_place_is_the_first_that_exists(
    paths: Seq<Seq<char>>,
    existing: Seq<bool>,
    at: int,
)
    requires
        0 <= at < paths.len(),
        existing.len() == paths.len(),
        forall|i: int| 0 <= i < at ==> !(#[trigger] existing[i]),
    ensures
        existing[at] || at == paths.len() - 1 ==> nearest(paths, existing) == paths[at],
    decreases paths.len(),
{
    if at > 0 {
        assert(!existing[0]);
        let rest = existing.drop_first();
        assert forall|i: int| 0 <= i < at - 1 implies !(#[trigger] rest[i]) by {
            assert(rest[i] == existing[i + 1]);
        }
        the_nearest_place_is_the_first_that_exists(paths.drop_first(), rest, at - 1);
        assert(rest[at - 1] == existing[at]);
        assert(paths.drop_first()[at - 1] == paths[at]);
    }
}

proof fn count_of_keys(trackers: Seq<TrackerConfig>)
    ensures
        count(api_key_findings(trackers), Severity::Warning) == 0,
        count(api_key_findings(trackers), Severity::Error) == 0 <==> forall|i: int|
            0 <= i < trackers.len() && (#[trigger] trackers[i]).kind is Unit3d
                ==> trackers[i].api_key.hidden().len() > 0,
    decreases trackers.len(),
{
    counting(Severity::Error);
    counting(Severity::Warning);
    if trackers.len() > 0 {
        let front = trackers.drop_last();
        let e = trackers.len() - 1;
        count_of_keys(front);
        assert forall|i: int| 0 <= i < e implies #[trigger] trackers[i] == front[i] by {}
        if forall|i: int|
            0 <= i < trackers.len() && (#[trigger] trackers[i]).kind is Unit3d
                ==> trackers[i].api_key.hidden().len() > 0 {
            assert(trackers[e].kind is Unit3d ==> trackers[e].api_key.hidden().len() > 0);
            assert forall|i: int| 0 <= i < front.len() && (
            #[trigger] front[i]).kind is Unit3d implies front[i].api_key.hidden().len() > 0 by {
                assert(trackers[i] == front[i]);
            }
        }
        if count(api_key_findings(trackers), Severity::Error) == 0 {
            assert forall|i: int| 0 <= i < trackers.len() && (
            #[trigger] trackers[i]).kind is Unit3d implies trackers[i].api_key.hidden().len()
                > 0 by {
                if i < e {
                    assert(front[i].kind is Unit3d);
                }
            }
        }
    }
}

proof fn count_of_arr_keys(arr: Seq<ArrConfig>)
    ensures
        count(arr_key_findings(arr), Severity::Warning) == 0,
        count(arr_key_findings(arr), Severity::Error) == 0 <==> forall|i: int|
            0 <= i < arr.len() ==> (#[trigger] arr[i]).api_key.hidden().len() > 0,
    decreases arr.len(),
{
    counting(Severity::Error);
    counting(Severity::Warning);
    if arr.len() > 0 {
        let front = arr.drop_last();
        let e = arr.len() - 1;
        count_of_arr_keys(front);
        assert forall|i: int| 0 <= i < e implies #[trigger] arr[i] == front[i] by {}
        if forall|i: int| 0 <= i < arr.len() ==> (#[trigger] arr[i]).api_key.hidden().len() > 0 {
            assert(arr[e].api_key.hidden().len() > 0);
            assert forall|i: int| 0 <= i < front.len() implies (
            #[trigger] front[i]).api_key.hidden().len() > 0 by {
                assert(arr[i] == front[i]);
            }
        }
        if count(arr_key_findings(arr), Severity::Error) == 0 {
            assert forall|i: int| 0 <= i < arr.len() implies (
            #[trigger] arr[i]).api_key.hidden().len() > 0 by {
                if i < e {
                    assert(front[i].api_key.hidden().len() > 0);
                }
            }
        }
    }
}

proof fn count_of_readable(roots: Seq<Seq<char>>, readable: Seq<Result<(), String>>)
    requires
        readable.len() == roots.len(),
    ensures
        count(readable_findings(roots, readable), Severity::Warning) == 0,
        count(readable_findings(roots, readable), Severity::Error) == 0 <==> forall|i: int|
            0 <= i < readable.len() ==> (#[trigger] readable[i]) is Ok,
    decreases roots.len(),
{
    counting(Severity::Error);
    counting(Severity::Warning);
    if roots.len() > 0 {
        let front = readable.drop_last();
        let e = readable.len() - 1;
        count_of_readable(roots.drop_last(), front);
        assert forall|i: int| 0 <= i < e implies #[trigger] readable[i] == front[i] by {}
        if forall|i: int| 0 <= i < readable.len() ==> (#[trigger] readable[i]) is Ok {
            assert(readable[e] is Ok);
            assert forall|i: int| 0 <= i < front.len() implies (#[trigger] front[i]) is Ok by {
                assert(readable[i] == front[i]);
            }
        }
        if count(readable_findings(roots, readable), Severity::Error) == 0 {
            assert forall|i: int| 0 <= i < readable.len() implies (
            #[trigger] readable[i]) is Ok by {
                if i < e {
                    assert(front[i] is Ok);
                }
            }
        }
    }
}

/// A configuration can be run exactly where all of this holds: every unit3d
/// tracker and every instance has a key, a qbittorrent client has a name and a
/// password, every library root is a readable directory, and the staging root, if
/// it is set, is absolute, writable, and neither at, above nor below a library
/// root.
pub proof fn when_a_configuration_can_run(
    config: Config,
    build: Build,
    disk: OnDisk,
    r: Result<(), ConfigError>,
)
    requires
        config.looked_at(disk),
        judged(config.disk_findings(build, disk), r),
    ensures
        r is Ok <==> {
            &&& forall|i: int|
                0 <= i < config.trackers@.len() && (#[trigger] config.trackers@[i]).kind is Unit3d
                    ==> config.trackers@[i].api_key.hidden().len() > 0
            &&& forall|i: int|
                0 <= i < config.arr@.len() ==> (#[trigger] config.arr@[i]).api_key.hidden().len()
                    > 0
            &&& config.download_client is Some && config.download_client->0.kind is QBittorrent
                ==> config.download_client->0.username@.len() > 0
                && config.download_client->0.password.hidden().len() > 0
            &&& forall|i: int| 0 <= i < disk.roots@.len() ==> (#[trigger] disk.roots@[i]) is Ok
            &&& config.staging.root@.len() > 0 ==> {
                &&& config.staging.root@[0] == '/'
                &&& disk.writable
                &&& forall|k: int|
                    0 <= k < disk.libraries@.len() ==> {
                        &&& !crate::paths::components(disk.staging@).is_prefix_of(
                            crate::paths::components((#[trigger] disk.libraries@[k])@),
                        )
                        &&& !crate::paths::components(disk.libraries@[k]@).is_prefix_of(
                            crate::paths::components(disk.staging@),
                        )
                    }
            }
        },
        messages(config.disk_findings(build, disk), Severity::Warning).len() == 0 <==> (
        config.metrics.enabled ==> build.metrics),
{
    counting(Severity::Error);
    counting(Severity::Warning);
    count_of_keys(config.trackers@);
    count_of_arr_keys(config.arr@);
    count_of_readable(crate::text::texts(config.library.roots@), disk.roots@);
    let s1 = api_key_findings(config.trackers@);
    let s2 = credential_findings(config.download_client);
    let s3 = arr_key_findings(config.arr@);
    let s4 = readable_findings(crate::text::texts(config.library.roots@), disk.roots@);
    let s5 = location_findings(config.staging.root@, disk);
    let s6 = metrics_findings(config.metrics.enabled, build);
    assert(config.disk_findings(build, disk) == s1 + s2 + s3 + s4 + s5 + s6);
    let separate = crate::staging::domain::separate(disk.staging@, disk.libraries@);
    assert(separate <==> forall|k: int|
        0 <= k < disk.libraries@.len() ==> {
            &&& !crate::paths::components(disk.staging@).is_prefix_of(
                crate::paths::components((#[trigger] disk.libraries@[k])@),
            )
            &&& !crate::paths::components(disk.libraries@[k]@).is_prefix_of(
                crate::paths::components(disk.staging@),
            )
        });
    assert(count(s5, Severity::Error) == 0 <==> (config.staging.root@.len() > 0
        ==> config.staging.root@[0] == '/' && disk.writable && separate));
}

} // verus!
