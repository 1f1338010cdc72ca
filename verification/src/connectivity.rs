//! Connection tests: prove a configured tracker, *arr instance, or download
//! client is reachable and its credentials are accepted, before a repair
//! needs it.
//!
//! Each probe asks something that a repair asks anyway; what came back is
//! turned into a result here. A probe must fail loudly rather than hang, so one
//! that did not answer in time has no answer.

use vstd::prelude::*;
use vstd::string::*;

use crate::library::{Candidate, CandidateError};
use crate::seeding::{ClientError, ClientSummary};
use crate::text::{chars_of, decimal_of};
use crate::tracker::{HitAndRun, TrackerError};

verus! {

/// Bounds both each request of a probe and the whole probe, in seconds.
pub const PROBE_TIMEOUT_SECS: u64 = 10;

/// Genuinely parses as a release but matches nothing in a real library, so an
/// *arr probe proves reachability and credentials without depending on
/// anything the operator has actually imported.
pub const PROBE_RELEASE_TITLE: &'static str = "Test.Show.S01E01.1080p.WEB-DL.x264-GROUP";

/// A message is cut to about this many characters: long enough to be useful,
/// short enough that a fragment of a remote response cannot turn a probe
/// result into an unbounded one.
pub const MAX_DETAIL_CHARS: usize = 200;

#[derive(Debug, PartialEq, Eq)]
pub struct ProbeResult {
    pub ok: bool,
    pub detail: String,
}

/// The message, cut where it is too long.
pub open spec fn cut(message: Seq<char>) -> Seq<char> {
    if message.len() <= MAX_DETAIL_CHARS {
        message
    } else {
        message.take(MAX_DETAIL_CHARS as int).push('\u{2026}')
    }
}

pub fn truncate(message: &str) -> (r: String)
    ensures
        r@ == cut(message@),
{
    let chars = chars_of(message);
    if chars.len() <= MAX_DETAIL_CHARS {
        return message.to_owned();
    }
    let mut truncated = String::new();
    let mut i: usize = 0;
    while i < MAX_DETAIL_CHARS
        invariant
            i <= MAX_DETAIL_CHARS < chars@.len(),
            truncated@ =~= chars@.take(i as int),
        decreases MAX_DETAIL_CHARS - i,
    {
        truncated.push(chars[i]);
        i += 1;
    }
    truncated.push('\u{2026}');
    truncated
}

/// Nothing that is shown of a probe is much longer than the limit.
pub proof fn details_are_bounded(message: Seq<char>)
    ensures
        cut(message).len() <= MAX_DETAIL_CHARS + 1,
        message.len() <= MAX_DETAIL_CHARS ==> cut(message) == message,
{
}

impl ProbeResult {
    pub fn ok(detail: &str) -> (r: ProbeResult)
        ensures
            r.ok,
            r.detail@ == detail@,
    {
        ProbeResult { ok: true, detail: detail.to_owned() }
    }

    pub fn failed(detail: &str) -> (r: ProbeResult)
        ensures
            !r.ok,
            r.detail@ == cut(detail@),
    {
        ProbeResult { ok: false, detail: truncate(detail) }
    }

    pub fn timed_out() -> (r: ProbeResult)
        ensures
            !r.ok,
            r.detail@ == "timed out after 10s waiting for a response"@,
    {
        proof {
            reveal_strlit("timed out after 10s waiting for a response");
        }
        ProbeResult::failed("timed out after 10s waiting for a response")
    }
}

/// The probe says that something is reachable, with a count.
pub open spec fn counts(result: ProbeResult, n: nat, what: Seq<char>) -> bool {
    result.ok && result.detail@ == "reachable \u{2014} "@ + crate::text::decimal(n) + what
}

/// The probe says why something failed.
pub open spec fn fails(result: ProbeResult, why: Seq<char>) -> bool {
    !result.ok && result.detail@ == cut(why)
}

/// The probe says that nothing came back in time.
pub open spec fn times_out(result: ProbeResult) -> bool {
    !result.ok && result.detail@ == "timed out after 10s waiting for a response"@
}

fn reachable(n: usize, what: &str) -> (r: ProbeResult)
    ensures
        counts(r, n as nat, what@),
{
    let mut detail = "reachable \u{2014} ".to_owned();
    detail.append(decimal_of(n as u128).as_str());
    detail.append(what);
    ProbeResult::ok(detail.as_str())
}

/// What is said of a tracker that was asked for its hit-and-runs.
pub open spec fn tracker_probed(
    answer: Option<Result<Vec<HitAndRun>, TrackerError>>,
    r: ProbeResult,
) -> bool {
    match answer {
        Some(Ok(warnings)) => counts(r, warnings@.len(), " outstanding hit-and-run(s)"@),
        Some(Err(error)) => fails(r, error.sentence()),
        None => times_out(r),
    }
}

/// What asking a tracker for its hit-and-runs came to. `None` stands for no
/// answer in time.
pub fn test_tracker(answer: &Option<Result<Vec<HitAndRun>, TrackerError>>) -> (r: ProbeResult)
    ensures
        tracker_probed(*answer, r),
{
    match answer {
        Some(Ok(warnings)) => reachable(warnings.len(), " outstanding hit-and-run(s)"),
        Some(Err(error)) => ProbeResult::failed(error.message().as_str()),
        None => ProbeResult::timed_out(),
    }
}

/// What is said of a download client that was asked for a summary.
pub open spec fn client_probed(
    answer: Option<Result<ClientSummary, ClientError>>,
    r: ProbeResult,
) -> bool {
    match answer {
        Some(Ok(summary)) => counts(r, summary.torrent_count as nat, " torrent(s) known"@),
        Some(Err(error)) => fails(r, error.sentence()),
        None => times_out(r),
    }
}

/// What asking a download client for a summary came to. `None` stands for no
/// answer in time.
pub fn test_download_client(answer: &Option<Result<ClientSummary, ClientError>>) -> (r: ProbeResult)
    ensures
        client_probed(*answer, r),
{
    match answer {
        Some(Ok(summary)) => reachable(summary.torrent_count, " torrent(s) known"),
        Some(Err(error)) => ProbeResult::failed(error.message().as_str()),
        None => ProbeResult::timed_out(),
    }
}

/// What is said of an *arr instance that was asked about a release.
pub open spec fn arr_probed(
    answer: Option<Result<Vec<Candidate>, CandidateError>>,
    r: ProbeResult,
) -> bool {
    match answer {
        Some(Ok(_)) => r.ok && r.detail@
            == "reachable \u{2014} the configured API key was accepted"@,
        Some(Err(error)) => fails(r, error.sentence()),
        None => times_out(r),
    }
}

/// What asking an *arr instance about a release came to. `None` stands for no
/// answer in time.
pub fn test_arr(answer: &Option<Result<Vec<Candidate>, CandidateError>>) -> (r: ProbeResult)
    ensures
        arr_probed(*answer, r),
{
    match answer {
        Some(Ok(_)) => ProbeResult::ok("reachable \u{2014} the configured API key was accepted"),
        Some(Err(error)) => ProbeResult::failed(error.message().as_str()),
        None => ProbeResult::timed_out(),
    }
}

/// A message of more than two hundred characters is cut behind them and marked
/// with an ellipsis; any other is shown whole.
pub proof fn a_long_message_is_cut(message: Seq<char>)
    ensures
        message.len() <= 200 ==> cut(message) == message,
        message.len() > 200 ==> cut(message).len() == 201 && cut(message).last() == '\u{2026}'
            && forall|i: int| 0 <= i < 200 ==> #[trigger] cut(message)[i] == message[i],
{
}

/// A probe succeeds just when the service answered without an error, and says how much
/// it reported; a service that did not answer is said to have timed out, and an error is
/// repeated as it was told, up to its two hundredth character.
pub proof fn what_a_probe_says(
    tracker: Option<Result<Vec<HitAndRun>, TrackerError>>,
    client: Option<Result<ClientSummary, ClientError>>,
    arr: Option<Result<Vec<Candidate>, CandidateError>>,
    of_tracker: ProbeResult,
    of_client: ProbeResult,
    of_arr: ProbeResult,
)
    requires
        tracker_probed(tracker, of_tracker),
        client_probed(client, of_client),
        arr_probed(arr, of_arr),
    ensures
        of_tracker.ok <==> tracker is Some && tracker->Some_0 is Ok,
        of_client.ok <==> client is Some && client->Some_0 is Ok,
        of_arr.ok <==> arr is Some && arr->Some_0 is Ok,
        tracker is None ==> of_tracker.detail@ == "timed out after 10s waiting for a response"@,
        client is None ==> of_client.detail@ == "timed out after 10s waiting for a response"@,
        arr is None ==> of_arr.detail@ == "timed out after 10s waiting for a response"@,
        tracker matches Some(Ok(warnings)) ==> of_tracker.detail@ == "reachable \u{2014} "@
            + crate::text::decimal(warnings@.len()) + " outstanding hit-and-run(s)"@,
        client matches Some(Ok(summary)) ==> of_client.detail@ == "reachable \u{2014} "@
            + crate::text::decimal(summary.torrent_count as nat) + " torrent(s) known"@,
        arr matches Some(Ok(_)) ==> of_arr.detail@
            == "reachable \u{2014} the configured API key was accepted"@,
        tracker matches Some(Err(error)) ==> error.sentence().len() <= 200 ==> of_tracker.detail@
            == error.sentence(),
        client matches Some(Err(error)) ==> error.sentence().len() <= 200 ==> of_client.detail@
            == error.sentence(),
        arr matches Some(Err(error)) ==> error.sentence().len() <= 200 ==> of_arr.detail@
            == error.sentence(),
{
}

} // verus!
