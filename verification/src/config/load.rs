//! Loading the configuration.

use vstd::prelude::*;
use vstd::string::*;

use super::problems::{Build, ConfigError, OnDisk, Severity};
use super::settings::Config;
use crate::text::push_text;

verus! {

/// What was found where the configuration is read from.
pub enum FileFound {
    /// There is no such file.
    Missing(String),
    /// It cannot be read for another reason.
    Unreadable(String),
    /// It cannot be parsed.
    Unparseable(String),
    Parsed(Config),
}

/// The file cannot be read, for that reason.
pub open spec fn not_read(error: ConfigError, at: Seq<char>, why: String) -> bool {
    error matches ConfigError::Read { path, source } && path@ == at && source == why
}

/// The file cannot be parsed, for that reason.
pub open spec fn not_parsed(error: ConfigError, at: Seq<char>, why: String) -> bool {
    error matches ConfigError::Parse { path, source } && path@ == at && source == why
}

/// What loading a configuration comes to.
pub open spec fn loaded(path: Seq<char>, found: FileFound, r: Result<Config, ConfigError>) -> bool {
    match found {
        FileFound::Missing(_) => r is Ok && r->Ok_0.is_default(),
        FileFound::Unreadable(why) => r is Err && not_read(r->Err_0, path, why),
        FileFound::Unparseable(why) => r is Err && not_parsed(r->Err_0, path, why),
        FileFound::Parsed(config) => r == Ok::<Config, ConfigError>(config),
    }
}

impl Config {
    /// The configuration as it stands in the file at `path`.
    pub fn parse_from(path: &str, found: FileFound) -> (r: Result<Config, ConfigError>)
        ensures
            match found {
                FileFound::Missing(why) => r is Err && not_read(r->Err_0, path@, why),
                FileFound::Unreadable(why) => r is Err && not_read(r->Err_0, path@, why),
                FileFound::Unparseable(why) => r is Err && not_parsed(r->Err_0, path@, why),
                FileFound::Parsed(config) => r == Ok::<Config, ConfigError>(config),
            },
    {
        match found {
            FileFound::Missing(source) => Err(ConfigError::Read { path: path.to_owned(), source }),
            FileFound::Unreadable(source) => Err(
                ConfigError::Read { path: path.to_owned(), source },
            ),
            FileFound::Unparseable(source) => Err(
                ConfigError::Parse { path: path.to_owned(), source },
            ),
            FileFound::Parsed(config) => Ok(config),
        }
    }

    /// As [`Config::parse_from`], but a missing file is a fresh install and
    /// starts unconfigured. One that exists and does not parse is still an
    /// error: a typo in a safety setting is never silently replaced by a
    /// default.
    pub fn load_from(path: &str, found: FileFound) -> (r: Result<Config, ConfigError>)
        ensures
            loaded(path@, found, r),
    {
        match found {
            FileFound::Missing(_) => Ok(Config::default()),
            other => Config::parse_from(path, other),
        }
    }

    /// Whether the configuration can be started with, and every warning about
    /// it: the ones that need no looking first, then the ones from disk.
    pub fn startup_warnings(
        &self,
        build: Build,
        bind: &Result<(), String>,
        disk: &OnDisk,
    ) -> (r: Result<Vec<String>, ConfigError>)
        requires
            self.looked_at(*disk),
        ensures
            ({
                let found = self.findings(build, *bind);
                let on_disk = self.disk_findings(build, *disk);
                match r {
                    Ok(warnings) => {
                        &&& super::problems::judged(found, Ok(()))
                        &&& super::problems::judged(on_disk, Ok(()))
                        &&& crate::text::texts(warnings@) == super::problems::messages(
                            found,
                            Severity::Warning,
                        ) + super::problems::messages(on_disk, Severity::Warning)
                    },
                    Err(error) => if super::problems::judged(found, Ok(())) {
                        super::problems::judged(on_disk, Err(error))
                    } else {
                        super::problems::judged(found, Err(error))
                    },
                }
            }),
    {
        let problems = self.problems(build, bind);
        match super::problems::as_result(&problems) {
            Ok(()) => {},
            Err(error) => return Err(error),
        }
        let mut warnings = super::problems::messages_of(&problems, Severity::Warning);
        let more = match self.validate_runtime(build, disk) {
            Ok(more) => more,
            Err(error) => return Err(error),
        };
        let ghost first = crate::text::texts(warnings@);
        let ghost second = crate::text::texts(more@);
        let mut i: usize = 0;
        assert(first + second.take(0) =~= first);
        while i < more.len()
            invariant
                i <= more@.len(),
                second == crate::text::texts(more@),
                crate::text::texts(warnings@) == first + second.take(i as int),
            decreases more@.len() - i,
        {
            push_text(&mut warnings, more[i].as_str());
            assert(first + second.take(i + 1) =~= (first + second.take(i as int)).push(
                second[i as int],
            ));
            i += 1;
        }
        assert(second.take(i as int) =~= second);
        Ok(warnings)
    }
}

/// Only a file that is not there is replaced by the defaults: one that is there is
/// taken as it stands, and one that cannot be read or parsed is an error that names
/// the file.
pub proof fn only_a_missing_file_is_a_fresh_install(
    path: Seq<char>,
    found: FileFound,
    r: Result<Config, ConfigError>,
)
    requires
        loaded(path, found, r),
    ensures
        found is Missing ==> r is Ok && r->Ok_0.is_default(),
        found is Unreadable ==> (r matches Err(ConfigError::Read { path: at, .. }) && at@ == path),
        found is Unparseable ==> (r matches Err(ConfigError::Parse { path: at, .. }) && at@
            == path),
        found matches FileFound::Parsed(config) ==> r == Ok::<Config, ConfigError>(config),
{
}

} // verus!
