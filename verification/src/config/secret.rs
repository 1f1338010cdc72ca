//! Values that must not end up in a log line.

use vstd::prelude::*;
use vstd::string::*;

use super::problems::ConfigError;
use super::settings::{ArrConfig, Config, TrackerConfig};
use crate::text::{chars_of, trim_line_breaks};

verus! {

/// What the settings UI is allowed to know about a [`Secret`]. Deliberately
/// has no variant carrying a value, so there is nothing to render by accident.
#[derive(Debug, PartialEq, Eq)]
pub enum SecretSource {
    Unset,
    /// Wins over everything else, so the UI shows it read-only.
    Environment { var: String },
    /// Also wins over an inline value, so the UI shows it read-only.
    File { path: String },
    /// The only source the UI can change.
    Inline,
}

impl Default for SecretSource {
    fn default() -> (r: SecretSource)
        ensures
            r is Unset,
    {
        SecretSource::Unset
    }
}

impl Clone for SecretSource {
    fn clone(&self) -> (r: SecretSource)
        ensures
            r == *self,
    {
        match self {
            SecretSource::Unset => SecretSource::Unset,
            SecretSource::Environment { var } => SecretSource::Environment { var: var.clone() },
            SecretSource::File { path } => SecretSource::File { path: path.clone() },
            SecretSource::Inline => SecretSource::Inline,
        }
    }
}

/// A value that must not end up in a log line.
///
/// There is no way to print one, and no way to compare two: "does equality
/// compare sources too" is a question this type should not have to answer.
pub struct Secret {
    value: String,
    source: SecretSource,
}

impl Secret {
    /// The value itself.
    pub closed spec fn hidden(self) -> Seq<char> {
        self.value@
    }

    /// Where the value came from.
    pub closed spec fn origin(self) -> SecretSource {
        self.source
    }

    pub fn new(value: &str) -> (r: Secret)
        ensures
            r.hidden() == value@,
            r.origin() == if value@.len() == 0 {
                SecretSource::Unset
            } else {
                SecretSource::Inline
            },
    {
        let source = if value.is_empty() {
            SecretSource::Unset
        } else {
            SecretSource::Inline
        };
        Secret { value: value.to_owned(), source }
    }

    pub fn with_source(value: &str, source: SecretSource) -> (r: Secret)
        ensures
            r.hidden() == value@,
            r.origin() == source,
    {
        Secret { value: value.to_owned(), source }
    }

    pub fn expose(&self) -> (r: &str)
        ensures
            r@ == self.hidden(),
    {
        self.value.as_str()
    }

    pub fn is_empty(&self) -> (r: bool)
        ensures
            r == (self.hidden().len() == 0),
    {
        self.value.as_str().is_empty()
    }

    pub fn source(&self) -> (r: &SecretSource)
        ensures
            *r == self.origin(),
    {
        &self.source
    }

    /// What may be printed of a secret: only whether there is one.
    pub fn redacted(&self) -> (r: &'static str)
        ensures
            r@ == if self.hidden().len() == 0 {
                "Secret(unset)"@
            } else {
                "Secret(***)"@
            },
    {
        if self.is_empty() {
            "Secret(unset)"
        } else {
            "Secret(***)"
        }
    }
}

impl Default for Secret {
    fn default() -> (r: Secret)
        ensures
            r.hidden().len() == 0,
            r.origin() is Unset,
    {
        Secret { value: String::new(), source: SecretSource::Unset }
    }
}

impl Clone for Secret {
    fn clone(&self) -> (r: Secret)
        ensures
            r == *self,
    {
        Secret { value: self.value.clone(), source: self.source.clone() }
    }
}

/// The upper case of an ASCII letter or digit; anything else becomes `_`.
pub open spec fn shout(c: char) -> char {
    if 'a' <= c <= 'z' {
        crate::text::upper(c)
    } else if 'A' <= c <= 'Z' || '0' <= c <= '9' {
        c
    } else {
        '_'
    }
}

/// An id as a fragment of an environment variable name.
pub open spec fn shouted(id: Seq<char>) -> Seq<char> {
    id.map_values(|c: char| shout(c))
}

/// Turn an operator-chosen id into the shouty-snake-case fragment of an
/// environment variable name: uppercased, every non-alphanumeric character
/// replaced with `_`.
pub fn shouty(id: &str) -> (r: String)
    ensures
        r@ == shouted(id@),
{
    let chars = chars_of(id);
    let mut out = String::new();
    let mut i: usize = 0;
    while i < chars.len()
        invariant
            i <= chars@.len(),
            chars@ == id@,
            out@ =~= shouted(id@.take(i as int)),
        decreases chars@.len() - i,
    {
        let c = chars[i];
        let loud = if 'a' <= c && c <= 'z' {
            crate::text::upper_of(c)
        } else if ('A' <= c && c <= 'Z') || ('0' <= c && c <= '9') {
            c
        } else {
            '_'
        };
        out.push(loud);
        i += 1;
    }
    assert(id@.take(i as int) =~= id@);
    out
}

/// Where a secret may come from besides the configuration itself.
#[derive(Debug, PartialEq, Eq)]
pub struct SecretLookup {
    pub env_var: String,
    pub file: Option<String>,
}

/// What was found there: the variable's value if it is set, and the contents of
/// the file, or why it could not be read.
pub struct SecretFound {
    pub env: Option<String>,
    pub contents: Result<String, String>,
}

/// The lookup names that variable and that file.
pub open spec fn looks_up(lookup: SecretLookup, var: Seq<char>, file: Option<String>) -> bool {
    lookup.env_var@ == var && lookup.file == file
}

/// The secret cannot be had: the file that should hold it cannot be read.
pub open spec fn unreadable(file: Option<String>, found: SecretFound) -> bool {
    found.env is None && file is Some && found.contents is Err
}

/// What a secret resolves to: the environment variable wins over the file, and
/// the file over the inline value. What a file holds is trimmed of trailing
/// newlines, the classic footgun from writing it with `echo`.
pub open spec fn resolves(
    inline: Secret,
    file: Option<String>,
    var: Seq<char>,
    found: SecretFound,
    r: Secret,
) -> bool {
    match (found.env, file) {
        (Some(value), _) => {
            &&& r.hidden() == value@
            &&& r.origin() matches SecretSource::Environment { var: name } && name@ == var
        },
        (None, Some(path)) => {
            &&& found.contents matches Ok(text) && r.hidden() == crate::text::without_line_breaks(
                text@,
            )
            &&& r.origin() == (SecretSource::File { path })
        },
        (None, None) => r == inline,
    }
}

/// What resolving a secret comes to.
pub open spec fn secret_resolved(
    inline: Secret,
    file: Option<String>,
    var: Seq<char>,
    found: SecretFound,
    r: Result<Secret, ConfigError>,
) -> bool {
    match r {
        Ok(secret) => !unreadable(file, found) && resolves(inline, file, var, found, secret),
        Err(error) => unreadable(file, found) && says_unreadable(error, file, found),
    }
}

/// The sentence about a file that cannot be read.
pub open spec fn unreadable_sentence(path: Seq<char>, why: Seq<char>) -> Seq<char> {
    "cannot read secret file "@ + path + " (set via a `_file` setting): "@ + why
}

/// The error says that the file cannot be read.
pub open spec fn says_unreadable(error: ConfigError, file: Option<String>, found: SecretFound) -> bool {
    error matches ConfigError::Invalid(message) && message@ == unreadable_sentence(
        file->0@,
        found.contents->Err_0@,
    )
}

/// Resolve one secret from its three possible sources.
pub fn resolve_secret(
    inline: &Secret,
    file: &Option<String>,
    env_var: &str,
    found: &SecretFound,
) -> (r: Result<Secret, ConfigError>)
    ensures
        secret_resolved(*inline, *file, env_var@, *found, r),
{
    match &found.env {
        Some(value) => return Ok(
            Secret::with_source(
                value.as_str(),
                SecretSource::Environment { var: env_var.to_owned() },
            ),
        ),
        None => {},
    }
    match file {
        Some(path) => match &found.contents {
            Ok(text) => Ok(
                Secret::with_source(
                    trim_line_breaks(text.as_str()).as_str(),
                    SecretSource::File { path: path.clone() },
                ),
            ),
            Err(why) => {
                let mut message = "cannot read secret file ".to_owned();
                message.append(path.as_str());
                message.append(" (set via a `_file` setting): ");
                message.append(why.as_str());
                Err(ConfigError::Invalid(message))
            },
        },
        None => Ok(inline.clone()),
    }
}

/// The variable that overrides a tracker's API key.
pub open spec fn tracker_var(id: Seq<char>) -> Seq<char> {
    "SEEDMEDIC_TRACKER_"@ + shouted(id) + "_API_KEY"@
}

/// The variable that overrides the API key of an *arr instance.
pub open spec fn arr_var(name: Seq<char>) -> Seq<char> {
    "SEEDMEDIC_ARR_"@ + shouted(name) + "_API_KEY"@
}

fn variable(front: &str, id: &str) -> (r: String)
    ensures
        r@ == front@ + shouted(id@) + "_API_KEY"@,
{
    let mut out = front.to_owned();
    out.append(shouty(id).as_str());
    out.append("_API_KEY");
    out
}

/// How many secrets the download client has.
pub open spec fn client_secrets(config: Config) -> int {
    if config.download_client is Some {
        1
    } else {
        0
    }
}

/// How many secrets there are.
pub open spec fn secret_count(config: Config) -> int {
    client_secrets(config) + 1 + config.trackers@.len() + config.arr@.len()
}

/// The places of the trackers' secrets come after the download client's and
/// the server's.
pub open spec fn tracker_place(config: Config, i: int) -> int {
    client_secrets(config) + 1 + i
}

pub open spec fn arr_place(config: Config, i: int) -> int {
    client_secrets(config) + 1 + config.trackers@.len() + i
}

/// Where every secret may come from: the download client's, the server's, the
/// trackers' and the *arrs', in this order.
pub fn secret_lookups(config: &Config) -> (r: Vec<SecretLookup>)
    ensures
        r@.len() == secret_count(*config),
        config.download_client matches Some(client) ==> looks_up(
            r@[0],
            "SEEDMEDIC_DOWNLOAD_CLIENT_PASSWORD"@,
            client.password_file,
        ),
        looks_up(
            r@[client_secrets(*config)],
            "SEEDMEDIC_SERVER_AUTH_TOKEN"@,
            config.server.auth_token_file,
        ),
        forall|i: int|
            0 <= i < config.trackers@.len() ==> looks_up(
                r@[tracker_place(*config, i)],
                tracker_var((#[trigger] config.trackers@[i]).id@),
                config.trackers@[i].api_key_file,
            ),
        forall|i: int|
            0 <= i < config.arr@.len() ==> looks_up(
                r@[arr_place(*config, i)],
                arr_var((#[trigger] config.arr@[i]).name@),
                config.arr@[i].api_key_file,
            ),
{
    let mut out: Vec<SecretLookup> = Vec::new();
    match &config.download_client {
        Some(client) => {
            out.push(
                SecretLookup {
                    env_var: "SEEDMEDIC_DOWNLOAD_CLIENT_PASSWORD".to_owned(),
                    file: client.password_file.clone(),
                },
            );
        },
        None => {},
    }
    out.push(
        SecretLookup {
            env_var: "SEEDMEDIC_SERVER_AUTH_TOKEN".to_owned(),
            file: config.server.auth_token_file.clone(),
        },
    );
    let ghost first = out@;
    let mut i: usize = 0;
    while i < config.trackers.len()
        invariant
            i <= config.trackers@.len(),
            first.len() == client_secrets(*config) + 1,
            out@.len() == first.len() + i,
            out@.take(first.len() as int) =~= first,
            forall|k: int|
                0 <= k < i ==> looks_up(
                    out@[tracker_place(*config, k)],
                    tracker_var((#[trigger] config.trackers@[k]).id@),
                    config.trackers@[k].api_key_file,
                ),
        decreases config.trackers@.len() - i,
    {
        let ghost before = out@;
        out.push(
            SecretLookup {
                env_var: variable("SEEDMEDIC_TRACKER_", config.trackers[i].id.as_str()),
                file: config.trackers[i].api_key_file.clone(),
            },
        );
        assert(out@.take(first.len() as int) =~= before.take(first.len() as int));
        i += 1;
    }
    let ghost second = out@;
    let mut j: usize = 0;
    while j < config.arr.len()
        invariant
            j <= config.arr@.len(),
            second.len() == client_secrets(*config) + 1 + config.trackers@.len(),
            out@.len() == second.len() + j,
            out@.take(second.len() as int) =~= second,
            forall|k: int|
                0 <= k < j ==> looks_up(
                    out@[arr_place(*config, k)],
                    arr_var((#[trigger] config.arr@[k]).name@),
                    config.arr@[k].api_key_file,
                ),
        decreases config.arr@.len() - j,
    {
        let ghost before = out@;
        out.push(
            SecretLookup {
                env_var: variable("SEEDMEDIC_ARR_", config.arr[j].name.as_str()),
                file: config.arr[j].api_key_file.clone(),
            },
        );
        assert(out@.take(second.len() as int) =~= before.take(second.len() as int));
        j += 1;
    }
    proof {
        assert forall|k: int| 0 <= k < second.len() implies #[trigger] out@[k] == second[k] by {
            assert(out@.take(second.len() as int)[k] == out@[k]);
        }
        assert forall|k: int| 0 <= k < first.len() implies #[trigger] second[k] == first[k] by {
            assert(second.take(first.len() as int)[k] == second[k]);
        }
        assert(out@[client_secrets(*config)] == first[client_secrets(*config)]);
        if config.download_client is Some {
            assert(out@[0] == first[0]);
        }
    }
    out
}

/// The tracker with its secret resolved.
pub open spec fn tracker_resolved(was: TrackerConfig, found: SecretFound, is: TrackerConfig) -> bool {
    &&& is == (TrackerConfig { api_key: is.api_key, ..was })
    &&& !unreadable(was.api_key_file, found)
    &&& resolves(was.api_key, was.api_key_file, tracker_var(was.id@), found, is.api_key)
}

/// The *arr instance with its secret resolved.
pub open spec fn arr_resolved(was: ArrConfig, found: SecretFound, is: ArrConfig) -> bool {
    &&& is == (ArrConfig { api_key: is.api_key, ..was })
    &&& !unreadable(was.api_key_file, found)
    &&& resolves(was.api_key, was.api_key_file, arr_var(was.name@), found, is.api_key)
}

/// The configuration with every secret resolved, and nothing else changed.
pub open spec fn resolved(was: Config, found: Seq<SecretFound>, is: Config) -> bool {
    &&& match (was.download_client, is.download_client) {
        (None, None) => true,
        (Some(before), Some(after)) => {
            &&& after.kind == before.kind
            &&& after.base_url == before.base_url
            &&& after.username == before.username
            &&& after.password_file == before.password_file
            &&& after.category == before.category
            &&& !unreadable(before.password_file, found[0])
            &&& resolves(
                before.password,
                before.password_file,
                "SEEDMEDIC_DOWNLOAD_CLIENT_PASSWORD"@,
                found[0],
                after.password,
            )
        },
        _ => false,
    }
    &&& is.server.bind_address == was.server.bind_address
    &&& is.server.auth_token_file == was.server.auth_token_file
    &&& !unreadable(was.server.auth_token_file, found[client_secrets(was)])
    &&& resolves(
        was.server.auth_token,
        was.server.auth_token_file,
        "SEEDMEDIC_SERVER_AUTH_TOKEN"@,
        found[client_secrets(was)],
        is.server.auth_token,
    )
    &&& is.trackers@.len() == was.trackers@.len()
    &&& forall|i: int|
        0 <= i < was.trackers@.len() ==> tracker_resolved(
            #[trigger] was.trackers@[i],
            found[tracker_place(was, i)],
            is.trackers@[i],
        )
    &&& is.arr@.len() == was.arr@.len()
    &&& forall|i: int|
        0 <= i < was.arr@.len() ==> arr_resolved(
            #[trigger] was.arr@[i],
            found[arr_place(was, i)],
            is.arr@[i],
        )
    &&& is.database == was.database
    &&& is.staging == was.staging
    &&& is.library == was.library
    &&& is.policy == was.policy
    &&& is.worker == was.worker
    &&& is.metrics == was.metrics
    &&& is.notifications == was.notifications
}

/// The file that may hold the secret of that place.
pub open spec fn secret_file(config: Config, place: int) -> Option<String> {
    if place < client_secrets(config) {
        (config.download_client->0).password_file
    } else if place == client_secrets(config) {
        config.server.auth_token_file
    } else if place < arr_place(config, 0) {
        config.trackers@[place - tracker_place(config, 0)].api_key_file
    } else {
        config.arr@[place - arr_place(config, 0)].api_key_file
    }
}

/// The secret of that place is the first that cannot be had.
pub open spec fn first_unreadable(was: Config, found: Seq<SecretFound>, place: int) -> bool {
    &&& 0 <= place < secret_count(was)
    &&& unreadable(secret_file(was, place), found[place])
    &&& forall|earlier: int|
        0 <= earlier < place ==> !unreadable(
            #[trigger] secret_file(was, earlier),
            found[earlier],
        )
}

/// Some secret cannot be had, and the error names the file of the first.
pub open spec fn unresolved(was: Config, found: Seq<SecretFound>, error: ConfigError) -> bool {
    exists|place: int| #[trigger]
        first_unreadable(was, found, place) && says_unreadable(
            error,
            secret_file(was, place),
            found[place],
        )
}

/// The keys of the first trackers can be had.
spec fn readable_trackers(
    trackers: Seq<TrackerConfig>,
    found: Seq<SecretFound>,
    start: int,
    count: int,
) -> bool {
    forall|i: int|
        0 <= i < count ==> !unreadable((#[trigger] trackers[i]).api_key_file, found[start + i])
}

/// The keys of the first *arrs can be had.
spec fn readable_arr(
    arr: Seq<ArrConfig>,
    found: Seq<SecretFound>,
    start: int,
    count: int,
) -> bool {
    forall|i: int|
        0 <= i < count ==> !unreadable((#[trigger] arr[i]).api_key_file, found[start + i])
}

fn resolve_trackers(trackers: Vec<TrackerConfig>, found: &Vec<SecretFound>, start: usize) -> (r:
    Result<Vec<TrackerConfig>, ConfigError>)
    requires
        start + trackers@.len() <= found@.len(),
    ensures
        match r {
            Ok(out) => out@.len() == trackers@.len() && forall|i: int|
                0 <= i < trackers@.len() ==> tracker_resolved(
                    #[trigger] trackers@[i],
                    found@[start + i],
                    out@[i],
                ),
            Err(error) => exists|i: int|
                0 <= i < trackers@.len() && unreadable(
                    (#[trigger] trackers@[i]).api_key_file,
                    found@[start + i],
                ) && says_unreadable(error, trackers@[i].api_key_file, found@[start + i])
                    && readable_trackers(trackers@, found@, start as int, i),
        },
{
    let ghost all = trackers@;
    let count: usize = trackers.len();
    let len: usize = found.len();
    assert(start <= len);
    let mut rest = trackers;
    let mut out: Vec<TrackerConfig> = Vec::new();
    assert(all.skip(0) =~= all);
    while rest.len() > 0
        invariant
            all == trackers@,
            count == all.len(),
            start + count <= found@.len() == len,
            out@.len() + rest@.len() == count,
            rest@ == all.skip(out@.len() as int),
            forall|i: int|
                0 <= i < out@.len() ==> tracker_resolved(
                    #[trigger] all[i],
                    found@[start + i],
                    out@[i],
                ),
        decreases rest@.len(),
    {
        let done: usize = out.len();
        let tracker = rest.remove(0);
        assert(tracker == all[done as int]);
        assert(rest@ =~= all.skip(done + 1));
        let env_var = variable("SEEDMEDIC_TRACKER_", tracker.id.as_str());
        match resolve_secret(
            &tracker.api_key,
            &tracker.api_key_file,
            env_var.as_str(),
            &found[start + done],
        ) {
            Ok(api_key) => {
                out.push(
                    TrackerConfig {
                        id: tracker.id,
                        kind: tracker.kind,
                        base_url: tracker.base_url,
                        api_key,
                        api_key_file: tracker.api_key_file,
                        token_placement: tracker.token_placement,
                    },
                );
            },
            Err(error) => {
                assert(unreadable(all[done as int].api_key_file, found@[start + done]));
                assert(readable_trackers(all, found@, start as int, done as int));
                return Err(error);
            },
        }
    }
    Ok(out)
}

fn resolve_arrs(arr: Vec<ArrConfig>, found: &Vec<SecretFound>, start: usize) -> (r: Result<
    Vec<ArrConfig>,
    ConfigError,
>)
    requires
        start + arr@.len() <= found@.len(),
    ensures
        match r {
            Ok(out) => out@.len() == arr@.len() && forall|i: int|
                0 <= i < arr@.len() ==> arr_resolved(#[trigger] arr@[i], found@[start + i], out@[i]),
            Err(error) => exists|i: int|
                0 <= i < arr@.len() && unreadable(
                    (#[trigger] arr@[i]).api_key_file,
                    found@[start + i],
                ) && says_unreadable(error, arr@[i].api_key_file, found@[start + i])
                    && readable_arr(arr@, found@, start as int, i),
        },
{
    let ghost all = arr@;
    let count: usize = arr.len();
    let len: usize = found.len();
    assert(start <= len);
    let mut rest = arr;
    let mut out: Vec<ArrConfig> = Vec::new();
    assert(all.skip(0) =~= all);
    while rest.len() > 0
        invariant
            all == arr@,
            count == all.len(),
            start + count <= found@.len() == len,
            out@.len() + rest@.len() == count,
            rest@ == all.skip(out@.len() as int),
            forall|i: int|
                0 <= i < out@.len() ==> arr_resolved(#[trigger] all[i], found@[start + i], out@[i]),
        decreases rest@.len(),
    {
        let done: usize = out.len();
        let instance = rest.remove(0);
        assert(instance == all[done as int]);
        assert(rest@ =~= all.skip(done + 1));
        let env_var = variable("SEEDMEDIC_ARR_", instance.name.as_str());
        match resolve_secret(
            &instance.api_key,
            &instance.api_key_file,
            env_var.as_str(),
            &found[start + done],
        ) {
            Ok(api_key) => {
                out.push(
                    ArrConfig {
                        kind: instance.kind,
                        name: instance.name,
                        base_url: instance.base_url,
                        api_key,
                        api_key_file: instance.api_key_file,
                        path_mappings: instance.path_mappings,
                    },
                );
            },
            Err(error) => {
                assert(unreadable(all[done as int].api_key_file, found@[start + done]));
                assert(readable_arr(all, found@, start as int, done as int));
                return Err(error);
            },
        }
    }
    Ok(out)
}

/// Resolve every secret. `found` is what was found for each of the
/// [`secret_lookups`].
pub fn resolve_secrets(config: Config, found: &Vec<SecretFound>) -> (r: Result<Config, ConfigError>)
    requires
        found@.len() == secret_count(config),
    ensures
        match r {
            Ok(is) => resolved(config, found@, is),
            Err(error) => unresolved(config, found@, error),
        },
{
    let mut is = config;
    let mut place: usize = 0;
    let len: usize = found.len();
    match is.download_client {
        Some(mut client) => {
            assert(place < len);
            match resolve_secret(
                &client.password,
                &client.password_file,
                "SEEDMEDIC_DOWNLOAD_CLIENT_PASSWORD",
                &found[place],
            ) {
                Ok(password) => {
                    client.password = password;
                },
                Err(error) => {
                    assert(first_unreadable(config, found@, 0));
                    return Err(error);
                },
            }
            is.download_client = Some(client);
            place = 1;
        },
        None => {
            is.download_client = None;
        },
    }
    assert(place == client_secrets(config));
    match resolve_secret(
        &is.server.auth_token,
        &is.server.auth_token_file,
        "SEEDMEDIC_SERVER_AUTH_TOKEN",
        &found[place],
    ) {
        Ok(auth_token) => {
            is.server.auth_token = auth_token;
        },
        Err(error) => {
            assert(first_unreadable(config, found@, place as int));
            return Err(error);
        },
    }
    place = place + 1;
    let count: usize = is.trackers.len();
    match resolve_trackers(is.trackers, found, place) {
        Ok(trackers) => {
            is.trackers = trackers;
        },
        Err(error) => {
            assert(unresolved(config, found@, error)) by {
                let i = choose|i: int|
                    0 <= i < config.trackers@.len() && unreadable(
                        (#[trigger] config.trackers@[i]).api_key_file,
                        found@[place + i],
                    ) && says_unreadable(
                        error,
                        config.trackers@[i].api_key_file,
                        found@[place + i],
                    ) && readable_trackers(config.trackers@, found@, place as int, i);
                assert forall|earlier: int| 0 <= earlier < place + i implies !unreadable(
                    #[trigger] secret_file(config, earlier),
                    found@[earlier],
                ) by {
                    if earlier >= place {
                        assert(config.trackers@[earlier - place].api_key_file == secret_file(
                            config,
                            earlier,
                        ));
                    }
                }
                assert(first_unreadable(config, found@, place + i));
            }
            return Err(error);
        },
    }
    place = place + count;
    match resolve_arrs(is.arr, found, place) {
        Ok(arr) => {
            is.arr = arr;
        },
        Err(error) => {
            assert(unresolved(config, found@, error)) by {
                let i = choose|i: int|
                    0 <= i < config.arr@.len() && unreadable(
                        (#[trigger] config.arr@[i]).api_key_file,
                        found@[place + i],
                    ) && says_unreadable(error, config.arr@[i].api_key_file, found@[place + i])
                        && readable_arr(config.arr@, found@, place as int, i);
                assert forall|earlier: int| 0 <= earlier < place + i implies !unreadable(
                    #[trigger] secret_file(config, earlier),
                    found@[earlier],
                ) by {
                    if earlier >= place {
                        assert(config.arr@[earlier - place].api_key_file == secret_file(
                            config,
                            earlier,
                        ));
                    } else if earlier >= tracker_place(config, 0) {
                        let k = earlier - tracker_place(config, 0);
                        assert(tracker_resolved(
                            config.trackers@[k],
                            found@[earlier],
                            is.trackers@[k],
                        ));
                    }
                }
                assert(first_unreadable(config, found@, place + i));
            }
            return Err(error);
        },
    }
    Ok(is)
}

/// The environment always wins, then the file, then the inline value.
pub proof fn secret_precedence(
    inline: Secret,
    file: Option<String>,
    var: Seq<char>,
    found: SecretFound,
    r: Secret,
)
    requires
        resolves(inline, file, var, found, r),
    ensures
        r.origin() is Environment <==> found.env is Some || (file is None && inline.origin() is Environment),
        found.env is None && file is Some ==> r.origin() is File,
{
}

/// The environment counts before a file and a file before what stands in the
/// configuration; a file counts without the line breaks at its end, and one that is
/// named and cannot be read is an error, unless the environment decides.
pub proof fn which_secret_counts(
    inline: Secret,
    file: Option<String>,
    var: Seq<char>,
    found: SecretFound,
    r: Result<Secret, ConfigError>,
)
    requires
        secret_resolved(inline, file, var, found, r),
    ensures
        match (found.env, file, found.contents) {
            (Some(value), _, _) => r matches Ok(secret) && secret.hidden() == value@
                && secret.origin() is Environment,
            (None, Some(path), Ok(text)) => r matches Ok(secret) && secret.hidden()
                == crate::text::without_line_breaks(text@) && secret.origin() == (
            SecretSource::File { path }),
            (None, Some(path), Err(why)) => r matches Err(ConfigError::Invalid(_)),
            (None, None, _) => r == Ok::<Secret, ConfigError>(inline),
        },
{
}

/// As part of the name of an environment variable a name keeps its length: small
/// letters become capitals, capitals and digits stay, and anything else becomes an
/// underscore.
pub proof fn how_a_name_is_shouted(id: Seq<char>, i: int)
    requires
        0 <= i < id.len(),
    ensures
        shouted(id).len() == id.len(),
        'a' <= id[i] <= 'z' ==> shouted(id)[i] as int == id[i] as int - 32,
        'A' <= id[i] <= 'Z' || '0' <= id[i] <= '9' ==> shouted(id)[i] == id[i],
        !('a' <= id[i] <= 'z' || 'A' <= id[i] <= 'Z' || '0' <= id[i] <= '9') ==> shouted(id)[i]
            == '_',
{
}

/// Resolving secrets changes nothing but the secrets, and each comes from its own
/// place: the client's password, the token, the trackers' keys and the instances'
/// keys, in this order.
pub proof fn secrets_are_resolved_one_by_one(
    was: Config,
    found: Seq<SecretFound>,
    is: Config,
    t: int,
    a: int,
)
    requires
        resolved(was, found, is),
        0 <= t < was.trackers@.len(),
        0 <= a < was.arr@.len(),
    ensures
        ({
            let first: int = if was.download_client is Some {
                1
            } else {
                0
            };
            &&& is.trackers@.len() == was.trackers@.len()
            &&& is.trackers@[t].id == was.trackers@[t].id
            &&& is.trackers@[t].kind == was.trackers@[t].kind
            &&& is.trackers@[t].base_url == was.trackers@[t].base_url
            &&& resolves(
                was.trackers@[t].api_key,
                was.trackers@[t].api_key_file,
                "SEEDMEDIC_TRACKER_"@ + shouted(was.trackers@[t].id@) + "_API_KEY"@,
                found[first + 1 + t],
                is.trackers@[t].api_key,
            )
            &&& is.arr@.len() == was.arr@.len()
            &&& is.arr@[a].name == was.arr@[a].name
            &&& is.arr@[a].kind == was.arr@[a].kind
            &&& is.arr@[a].base_url == was.arr@[a].base_url
            &&& resolves(
                was.arr@[a].api_key,
                was.arr@[a].api_key_file,
                "SEEDMEDIC_ARR_"@ + shouted(was.arr@[a].name@) + "_API_KEY"@,
                found[first + 1 + was.trackers@.len() + a],
                is.arr@[a].api_key,
            )
            &&& resolves(
                was.server.auth_token,
                was.server.auth_token_file,
                "SEEDMEDIC_SERVER_AUTH_TOKEN"@,
                found[first],
                is.server.auth_token,
            )
            &&& was.download_client is Some ==> is.download_client is Some && resolves(
                was.download_client->0.password,
                was.download_client->0.password_file,
                "SEEDMEDIC_DOWNLOAD_CLIENT_PASSWORD"@,
                found[0],
                is.download_client->0.password,
            )
            &&& is.policy == was.policy
            &&& is.staging == was.staging
            &&& is.library == was.library
            &&& is.worker == was.worker
        }),
{
    assert(tracker_resolved(
        was.trackers@[t],
        found[tracker_place(was, t)],
        is.trackers@[t],
    ));
    assert(arr_resolved(was.arr@[a], found[arr_place(was, a)], is.arr@[a]));
}

} // verus!
