//! A human-readable rendering of the effective configuration, with every
//! secret replaced by whether it is set.

use vstd::prelude::*;
use vstd::string::*;

use super::secret::Secret;
use super::settings::{
    ArrConfig, ArrKind, Config, DownloadClientConfig, DownloadClientKind, TokenPlacement,
    TrackerConfig, TrackerKind,
};
use crate::library::MatchConfidence;
use crate::repair::policy::AutoResume;
use crate::text::{decimal_of, push_text, quote, signed_decimal_of};

verus! {

/// Whether a secret is set.
pub open spec fn state_of(secret: Secret) -> Seq<char> {
    if secret.hidden().len() == 0 {
        "unset"@
    } else {
        "set"@
    }
}

fn secret_state(secret: &Secret) -> (r: &'static str)
    ensures
        r@ == state_of(*secret),
{
    if secret.is_empty() {
        "unset"
    } else {
        "set"
    }
}

pub open spec fn yes_or_no(b: bool) -> Seq<char> {
    if b {
        "true"@
    } else {
        "false"@
    }
}

fn bool_text(b: bool) -> (r: &'static str)
    ensures
        r@ == yes_or_no(b),
{
    if b {
        "true"
    } else {
        "false"
    }
}

pub open spec fn resume_title(auto_resume: AutoResume) -> Seq<char> {
    match auto_resume {
        AutoResume::Never => "Never"@,
        AutoResume::WhenVerifiedComplete => "WhenVerifiedComplete"@,
    }
}

pub open spec fn confidence_title(confidence: MatchConfidence) -> Seq<char> {
    match confidence {
        MatchConfidence::Ambiguous => "Ambiguous"@,
        MatchConfidence::Probable => "Probable"@,
        MatchConfidence::Operator => "Operator"@,
        MatchConfidence::Exact => "Exact"@,
    }
}

pub open spec fn tracker_title(kind: TrackerKind) -> Seq<char> {
    match kind {
        TrackerKind::Unit3d => "Unit3d"@,
        TrackerKind::Fake => "Fake"@,
    }
}

pub open spec fn placement_title(placement: TokenPlacement) -> Seq<char> {
    match placement {
        TokenPlacement::Header => "Header"@,
        TokenPlacement::Query => "Query"@,
    }
}

pub open spec fn client_title(kind: DownloadClientKind) -> Seq<char> {
    match kind {
        DownloadClientKind::QBittorrent => "QBittorrent"@,
        DownloadClientKind::Fake => "Fake"@,
    }
}

pub open spec fn arr_title(kind: ArrKind) -> Seq<char> {
    match kind {
        ArrKind::Sonarr => "Sonarr"@,
        ArrKind::Radarr => "Radarr"@,
    }
}

/// An optional text, in quotes.
pub open spec fn optional_quoted(text: Option<String>) -> Seq<char> {
    match text {
        Some(text) => "Some("@ + crate::text::quoted(text@) + ")"@,
        None => "None"@,
    }
}

fn show_optional(text: &Option<String>) -> (r: String)
    ensures
        r@ == optional_quoted(*text),
{
    match text {
        Some(text) => {
            let mut out = "Some(".to_owned();
            out.append(quote(text.as_str()).as_str());
            out.append(")");
            out
        },
        None => "None".to_owned(),
    }
}

/// Texts with a comma and a space between them.
pub open spec fn listed(items: Seq<Seq<char>>) -> Seq<char>
    decreases items.len(),
{
    if items.len() == 0 {
        Seq::empty()
    } else if items.len() == 1 {
        items[0]
    } else {
        listed(items.drop_last()) + ", "@ + items.last()
    }
}

fn list_texts(items: &Vec<String>) -> (r: String)
    ensures
        r@ == listed(crate::text::texts(items@)),
{
    let ghost all = crate::text::texts(items@);
    let mut out = String::new();
    let mut i: usize = 0;
    assert(out@ =~= listed(all.take(0)));
    while i < items.len()
        invariant
            i <= items@.len(),
            all == crate::text::texts(items@),
            out@ == listed(all.take(i as int)),
        decreases items@.len() - i,
    {
        proof {
            assert(all.take(i + 1).drop_last() =~= all.take(i as int));
            assert(all.take(i + 1).last() == items@[i as int]@);
        }
        if i > 0 {
            out.append(", ");
        }
        out.append(items[i].as_str());
        assert(out@ =~= listed(all.take(i + 1)));
        i += 1;
    }
    assert(all.take(i as int) =~= all);
    out
}

fn equation(name: &str, value: &str) -> (r: String)
    ensures
        r@ == name@ + " = "@ + value@,
{
    let mut out = name.to_owned();
    out.append(" = ");
    out.append(value);
    out
}

/// A setting and its value.
pub open spec fn setting(name: Seq<char>, value: Seq<char>) -> Seq<char> {
    name + " = "@ + value
}

/// The settings that stand once.
pub open spec fn first_lines(config: Config) -> Seq<Seq<char>> {
    seq![
        setting("server.bind_address"@, config.server.bind_address@),
        setting("server.auth_token"@, state_of(config.server.auth_token)),
        setting("database.path"@, config.database.path@),
        setting("staging.root"@, config.staging.root@),
        setting(
            "staging.min_free_bytes"@,
            crate::text::decimal(config.staging.min_free_bytes as nat),
        ),
        "library.roots = ["@ + listed(crate::text::texts(config.library.roots@)) + "]"@,
    ]
}

pub open spec fn policy_lines(config: Config) -> Seq<Seq<char>> {
    seq![
        setting("policy.auto_resume"@, resume_title(config.policy.auto_resume)),
        setting(
            "policy.min_match_confidence"@,
            confidence_title(config.policy.min_match_confidence),
        ),
        setting(
            "policy.verification_pieces"@,
            crate::text::decimal(config.policy.verification_pieces as nat),
        ),
        setting("policy.prefer_reflink"@, yes_or_no(config.policy.prefer_reflink))
            + ", allow_hardlink = "@ + yes_or_no(config.policy.allow_hardlink)
            + ", allow_copy = "@ + yes_or_no(config.policy.allow_copy),
        setting(
            "policy.tracker_poll_seconds"@,
            crate::text::decimal(config.policy.tracker_poll_seconds as nat),
        ),
        setting("worker.owner"@, config.worker.owner@),
        setting(
            "worker.batch_size"@,
            crate::text::signed_decimal(config.worker.batch_size as int),
        ),
    ]
}

pub open spec fn tracker_line(tracker: TrackerConfig) -> Seq<char> {
    "[[trackers]] id="@ + tracker.id@ + " kind="@ + tracker_title(tracker.kind) + " base_url="@
        + tracker.base_url@ + " token_placement="@ + placement_title(tracker.token_placement)
        + " api_key="@ + state_of(tracker.api_key)
}

pub open spec fn client_line(client: Option<DownloadClientConfig>) -> Seq<char> {
    match client {
        None => "download_client = unconfigured"@,
        Some(client) => "download_client kind="@ + client_title(client.kind) + " base_url="@
            + client.base_url@ + " username="@ + crate::text::quoted(client.username@)
            + " password="@ + state_of(client.password) + " category="@ + optional_quoted(
            client.category,
        ),
    }
}

pub open spec fn arr_line(instance: ArrConfig) -> Seq<char> {
    "[[arr]] kind="@ + arr_title(instance.kind) + " name="@ + instance.name@ + " base_url="@
        + instance.base_url@ + " api_key="@ + state_of(instance.api_key)
}

pub open spec fn last_lines(config: Config) -> Seq<Seq<char>> {
    seq![
        setting("metrics.enabled"@, yes_or_no(config.metrics.enabled)),
        setting(
            "notifications.webhook_url"@,
            if config.notifications.webhook_url is Some {
                "set"@
            } else {
                "unset"@
            },
        ),
    ]
}

/// The lines of the summary.
pub open spec fn summary_lines(config: Config) -> Seq<Seq<char>> {
    first_lines(config) + policy_lines(config) + config.trackers@.map_values(
        |tracker: TrackerConfig| tracker_line(tracker),
    ) + seq![client_line(config.download_client)] + config.arr@.map_values(
        |instance: ArrConfig| arr_line(instance),
    ) + last_lines(config)
}

/// Lines, each with its end.
pub open spec fn with_ends(lines: Seq<Seq<char>>) -> Seq<char>
    decreases lines.len(),
{
    if lines.len() == 0 {
        Seq::empty()
    } else {
        with_ends(lines.drop_last()) + lines.last() + "\n"@
    }
}

fn write_lines(lines: &Vec<String>) -> (r: String)
    ensures
        r@ == with_ends(crate::text::texts(lines@)),
{
    let ghost all = crate::text::texts(lines@);
    let mut out = String::new();
    let mut i: usize = 0;
    assert(out@ =~= with_ends(all.take(0)));
    while i < lines.len()
        invariant
            i <= lines@.len(),
            all == crate::text::texts(lines@),
            out@ == with_ends(all.take(i as int)),
        decreases lines@.len() - i,
    {
        proof {
            assert(all.take(i + 1).drop_last() =~= all.take(i as int));
            assert(all.take(i + 1).last() == lines@[i as int]@);
        }
        out.append(lines[i].as_str());
        out.append("\n");
        i += 1;
    }
    assert(all.take(i as int) =~= all);
    out
}

fn write_first(config: &Config, lines: &mut Vec<String>)
    ensures
        crate::text::texts(final(lines)@) == crate::text::texts(old(lines)@) + first_lines(*config),
{
    let ghost before = crate::text::texts(lines@);
    push_text(
        lines,
        equation("server.bind_address", config.server.bind_address.as_str()).as_str(),
    );
    push_text(
        lines,
        equation("server.auth_token", secret_state(&config.server.auth_token)).as_str(),
    );
    push_text(lines, equation("database.path", config.database.path.as_str()).as_str());
    push_text(lines, equation("staging.root", config.staging.root.as_str()).as_str());
    push_text(
        lines,
        equation(
            "staging.min_free_bytes",
            decimal_of(config.staging.min_free_bytes as u128).as_str(),
        ).as_str(),
    );
    let mut roots = "library.roots = [".to_owned();
    roots.append(list_texts(&config.library.roots).as_str());
    roots.append("]");
    push_text(lines, roots.as_str());
    assert(crate::text::texts(lines@) =~= before + first_lines(*config));
}

fn write_policy(config: &Config, lines: &mut Vec<String>)
    ensures
        crate::text::texts(final(lines)@) == crate::text::texts(old(lines)@) + policy_lines(
            *config,
        ),
{
    let ghost before = crate::text::texts(lines@);
    let resume = match config.policy.auto_resume {
        AutoResume::Never => "Never",
        AutoResume::WhenVerifiedComplete => "WhenVerifiedComplete",
    };
    push_text(lines, equation("policy.auto_resume", resume).as_str());
    let confidence = match config.policy.min_match_confidence {
        MatchConfidence::Ambiguous => "Ambiguous",
        MatchConfidence::Probable => "Probable",
        MatchConfidence::Operator => "Operator",
        MatchConfidence::Exact => "Exact",
    };
    push_text(lines, equation("policy.min_match_confidence", confidence).as_str());
    push_text(
        lines,
        equation(
            "policy.verification_pieces",
            decimal_of(config.policy.verification_pieces as u128).as_str(),
        ).as_str(),
    );
    let mut ways = equation("policy.prefer_reflink", bool_text(config.policy.prefer_reflink));
    ways.append(", allow_hardlink = ");
    ways.append(bool_text(config.policy.allow_hardlink));
    ways.append(", allow_copy = ");
    ways.append(bool_text(config.policy.allow_copy));
    push_text(lines, ways.as_str());
    push_text(
        lines,
        equation(
            "policy.tracker_poll_seconds",
            decimal_of(config.policy.tracker_poll_seconds as u128).as_str(),
        ).as_str(),
    );
    push_text(lines, equation("worker.owner", config.worker.owner.as_str()).as_str());
    push_text(
        lines,
        equation(
            "worker.batch_size",
            signed_decimal_of(config.worker.batch_size).as_str(),
        ).as_str(),
    );
    assert(crate::text::texts(lines@) =~= before + policy_lines(*config));
}

fn show_tracker(tracker: &TrackerConfig) -> (r: String)
    ensures
        r@ == tracker_line(*tracker),
{
    let mut out = "[[trackers]] id=".to_owned();
    out.append(tracker.id.as_str());
    out.append(" kind=");
    out.append(
        match tracker.kind {
            TrackerKind::Unit3d => "Unit3d",
            TrackerKind::Fake => "Fake",
        },
    );
    out.append(" base_url=");
    out.append(tracker.base_url.as_str());
    out.append(" token_placement=");
    out.append(
        match tracker.token_placement {
            TokenPlacement::Header => "Header",
            TokenPlacement::Query => "Query",
        },
    );
    out.append(" api_key=");
    out.append(secret_state(&tracker.api_key));
    out
}

fn show_client(client: &Option<DownloadClientConfig>) -> (r: String)
    ensures
        r@ == client_line(*client),
{
    match client {
        None => "download_client = unconfigured".to_owned(),
        Some(client) => {
            let mut out = "download_client kind=".to_owned();
            out.append(
                match client.kind {
                    DownloadClientKind::QBittorrent => "QBittorrent",
                    DownloadClientKind::Fake => "Fake",
                },
            );
            out.append(" base_url=");
            out.append(client.base_url.as_str());
            out.append(" username=");
            out.append(quote(client.username.as_str()).as_str());
            out.append(" password=");
            out.append(secret_state(&client.password));
            out.append(" category=");
            out.append(show_optional(&client.category).as_str());
            out
        },
    }
}

fn show_arr(instance: &ArrConfig) -> (r: String)
    ensures
        r@ == arr_line(*instance),
{
    let mut out = "[[arr]] kind=".to_owned();
    out.append(
        match instance.kind {
            ArrKind::Sonarr => "Sonarr",
            ArrKind::Radarr => "Radarr",
        },
    );
    out.append(" name=");
    out.append(instance.name.as_str());
    out.append(" base_url=");
    out.append(instance.base_url.as_str());
    out.append(" api_key=");
    out.append(secret_state(&instance.api_key));
    out
}

fn write_trackers(trackers: &Vec<TrackerConfig>, lines: &mut Vec<String>)
    ensures
        crate::text::texts(final(lines)@) == crate::text::texts(old(lines)@)
            + trackers@.map_values(|tracker: TrackerConfig| tracker_line(tracker)),
{
    let ghost before = crate::text::texts(lines@);
    let ghost shown = trackers@.map_values(|tracker: TrackerConfig| tracker_line(tracker));
    let mut i: usize = 0;
    assert(crate::text::texts(lines@) =~= before + shown.take(0));
    while i < trackers.len()
        invariant
            i <= trackers@.len(),
            shown == trackers@.map_values(|tracker: TrackerConfig| tracker_line(tracker)),
            crate::text::texts(lines@) == before + shown.take(i as int),
        decreases trackers@.len() - i,
    {
        push_text(lines, show_tracker(&trackers[i]).as_str());
        assert(crate::text::texts(lines@) =~= before + shown.take(i + 1));
        i += 1;
    }
    assert(shown.take(i as int) =~= shown);
}

fn write_arrs(arr: &Vec<ArrConfig>, lines: &mut Vec<String>)
    ensures
        crate::text::texts(final(lines)@) == crate::text::texts(old(lines)@) + arr@.map_values(
            |instance: ArrConfig| arr_line(instance),
        ),
{
    let ghost before = crate::text::texts(lines@);
    let ghost shown = arr@.map_values(|instance: ArrConfig| arr_line(instance));
    let mut i: usize = 0;
    assert(crate::text::texts(lines@) =~= before + shown.take(0));
    while i < arr.len()
        invariant
            i <= arr@.len(),
            shown == arr@.map_values(|instance: ArrConfig| arr_line(instance)),
            crate::text::texts(lines@) == before + shown.take(i as int),
        decreases arr@.len() - i,
    {
        push_text(lines, show_arr(&arr[i]).as_str());
        assert(crate::text::texts(lines@) =~= before + shown.take(i + 1));
        i += 1;
    }
    assert(shown.take(i as int) =~= shown);
}

impl Config {
    /// A human-readable rendering of the effective configuration, with every
    /// secret replaced by whether it is set. Never exposes one.
    pub fn redacted_summary(&self) -> (r: String)
        ensures
            r@ == with_ends(summary_lines(*self)),
    {
        let mut lines: Vec<String> = Vec::new();
        write_first(self, &mut lines);
        write_policy(self, &mut lines);
        write_trackers(&self.trackers, &mut lines);
        push_text(&mut lines, show_client(&self.download_client).as_str());
        write_arrs(&self.arr, &mut lines);
        push_text(
            &mut lines,
            equation("metrics.enabled", bool_text(self.metrics.enabled)).as_str(),
        );
        let webhook = if self.notifications.webhook_url.is_some() {
            "set"
        } else {
            "unset"
        };
        push_text(&mut lines, equation("notifications.webhook_url", webhook).as_str());
        assert(crate::text::texts(lines@) =~= summary_lines(*self));
        write_lines(&lines)
    }
}

/// Two secrets are both set or both unset.
pub open spec fn alike(a: Secret, b: Secret) -> bool {
    a.hidden().len() == 0 <==> b.hidden().len() == 0
}

/// Two configurations differ at most in what their secrets are, and not in
/// which of them are set.
pub open spec fn same_but_for_secrets(a: Config, b: Config) -> bool {
    &&& a.server.bind_address@ == b.server.bind_address@
    &&& alike(a.server.auth_token, b.server.auth_token)
    &&& a.database.path@ == b.database.path@
    &&& a.staging.root@ == b.staging.root@
    &&& a.staging.min_free_bytes == b.staging.min_free_bytes
    &&& a.library == b.library
    &&& a.policy == b.policy
    &&& a.worker == b.worker
    &&& a.metrics == b.metrics
    &&& a.notifications == b.notifications
    &&& a.trackers@.len() == b.trackers@.len()
    &&& forall|i: int|
        0 <= i < a.trackers@.len() ==> {
            let (x, y) = (#[trigger] a.trackers@[i], b.trackers@[i]);
            &&& x.id@ == y.id@
            &&& x.kind == y.kind
            &&& x.base_url@ == y.base_url@
            &&& x.token_placement == y.token_placement
            &&& alike(x.api_key, y.api_key)
        }
    &&& match (a.download_client, b.download_client) {
        (None, None) => true,
        (Some(x), Some(y)) => {
            &&& x.kind == y.kind
            &&& x.base_url@ == y.base_url@
            &&& x.username@ == y.username@
            &&& x.category == y.category
            &&& alike(x.password, y.password)
        },
        _ => false,
    }
    &&& a.arr@.len() == b.arr@.len()
    &&& forall|i: int|
        0 <= i < a.arr@.len() ==> {
            let (x, y) = (#[trigger] a.arr@[i], b.arr@[i]);
            &&& x.kind == y.kind
            &&& x.name@ == y.name@
            &&& x.base_url@ == y.base_url@
            &&& alike(x.api_key, y.api_key)
        }
}

/// The summary says nothing of a secret but whether it is set: whatever the
/// secrets are, it is the same.
pub proof fn the_summary_shows_no_secret(a: Config, b: Config)
    requires
        same_but_for_secrets(a, b),
    ensures
        summary_lines(a) == summary_lines(b),
{
    assert(first_lines(a) =~= first_lines(b));
    assert(policy_lines(a) =~= policy_lines(b));
    assert(a.trackers@.map_values(|t: TrackerConfig| tracker_line(t)) =~= b.trackers@.map_values(
        |t: TrackerConfig| tracker_line(t),
    ));
    assert(a.arr@.map_values(|i: ArrConfig| arr_line(i)) =~= b.arr@.map_values(
        |i: ArrConfig| arr_line(i),
    ));
    assert(last_lines(a) =~= last_lines(b));
    assert(client_line(a.download_client) == client_line(b.download_client));
}

/// A secret is shown as set or unset and in no other way; every tracker and every
/// instance has a line of its own, in the order of the configuration.
pub proof fn what_the_summary_tells(config: Config, i: int, k: int)
    requires
        0 <= i < config.trackers@.len(),
        0 <= k < config.arr@.len(),
    ensures
        summary_lines(config).len() == 16 + config.trackers@.len() + config.arr@.len(),
        summary_lines(config)[13 + i] == "[[trackers]] id="@ + config.trackers@[i].id@ + " kind="@
            + tracker_title(config.trackers@[i].kind) + " base_url="@
            + config.trackers@[i].base_url@ + " token_placement="@ + placement_title(
            config.trackers@[i].token_placement,
        ) + " api_key="@ + (if config.trackers@[i].api_key.hidden().len() > 0 {
            "set"@
        } else {
            "unset"@
        }),
        summary_lines(config)[14 + config.trackers@.len() + k] == "[[arr]] kind="@ + arr_title(
            config.arr@[k].kind,
        ) + " name="@ + config.arr@[k].name@ + " base_url="@ + config.arr@[k].base_url@
            + " api_key="@ + (if config.arr@[k].api_key.hidden().len() > 0 {
            "set"@
        } else {
            "unset"@
        }),
        summary_lines(config)[1] == "server.auth_token"@ + " = "@ + (
        if config.server.auth_token.hidden().len() > 0 {
            "set"@
        } else {
            "unset"@
        }),
{
}

} // verus!
