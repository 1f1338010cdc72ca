//! Notifications for the events an operator actually cares about: a repair
//! parked for review, a repair completed, a tracker unreachable for a while.
//!
//! Optional and off by default. A notifier is never a dependency of the repair
//! workflow: every call site logs and moves on if sending fails, and nothing
//! here ever changes what the worker decides.

use vstd::prelude::*;
use vstd::string::*;

use crate::clock::Duration;
use crate::json::{Doc, Json};
use crate::repair::domain::JobId;

verus! {

/// The short, deliberately short, list of events an operator wants to hear
/// about without watching logs.
#[derive(Debug, PartialEq, Eq)]
pub enum NotificationEvent {
    ParkedForReview { job: JobId, tracker: String, torrent_name: String, reason: &'static str },
    Completed { job: JobId, tracker: String, torrent_name: String },
    TrackerUnreachable { tracker: String, unreachable_for: Duration },
}

impl NotificationEvent {
    /// What the body of the notification says.
    pub open spec fn doc(self) -> Doc {
        match self {
            NotificationEvent::ParkedForReview { job, tracker, torrent_name, reason } =>
                crate::json::fact("event"@, Doc::Text("parked_for_review"@)).with(
                "job"@,
                Doc::Number(job.0 as int),
            ).with("tracker"@, Doc::Text(tracker@)).with(
                "torrent_name"@,
                Doc::Text(torrent_name@),
            ).with("reason"@, Doc::Text(reason@)),
            NotificationEvent::Completed { job, tracker, torrent_name } => crate::json::fact(
                "event"@,
                Doc::Text("completed"@),
            ).with("job"@, Doc::Number(job.0 as int)).with("tracker"@, Doc::Text(tracker@)).with(
                "torrent_name"@,
                Doc::Text(torrent_name@),
            ),
            NotificationEvent::TrackerUnreachable { tracker, unreachable_for } => crate::json::fact(
                "event"@,
                Doc::Text("tracker_unreachable"@),
            ).with("tracker"@, Doc::Text(tracker@)).with(
                "unreachable_for_seconds"@,
                Doc::Number(unreachable_for@ / crate::clock::secs(1)),
            ),
        }
    }

    /// A flat JSON body any generic webhook receiver can consume without
    /// knowing the domain types.
    pub fn to_json(&self) -> (r: Json)
        ensures
            r.doc() == self.doc(),
    {
        match self {
            NotificationEvent::ParkedForReview { job, tracker, torrent_name, reason } => Json::fact(
                "event",
                Json::text("parked_for_review"),
            ).with("job", Json::Signed(job.0)).with("tracker", Json::text(tracker.as_str())).with(
                "torrent_name",
                Json::text(torrent_name.as_str()),
            ).with("reason", Json::text(reason)),
            NotificationEvent::Completed { job, tracker, torrent_name } => Json::fact(
                "event",
                Json::text("completed"),
            ).with("job", Json::Signed(job.0)).with("tracker", Json::text(tracker.as_str())).with(
                "torrent_name",
                Json::text(torrent_name.as_str()),
            ),
            NotificationEvent::TrackerUnreachable { tracker, unreachable_for } => Json::fact(
                "event",
                Json::text("tracker_unreachable"),
            ).with("tracker", Json::text(tracker.as_str())).with(
                "unreachable_for_seconds",
                Json::Unsigned(unreachable_for.as_secs()),
            ),
        }
    }
}

#[derive(Debug, PartialEq, Eq)]
pub enum NotifyError {
    /// notification request failed
    Transport(String),
}

impl NotifyError {
    /// The sentence shown for it.
    pub open spec fn sentence(self) -> Seq<char> {
        match self {
            NotifyError::Transport(why) => "notification request failed: "@ + why@,
        }
    }

    pub fn message(&self) -> (r: String)
        ensures
            r@ == self.sentence(),
    {
        match self {
            NotifyError::Transport(why) => {
                let mut out = "notification request failed: ".to_owned();
                out.append(why.as_str());
                out
            },
        }
    }
}

/// What a webhook's reply comes to: any status in the two hundreds is success.
/// `shown` is the status as it is shown.
pub fn webhook_reply(status: u16, shown: &str) -> (r: Result<(), NotifyError>)
    ensures
        match r {
            Ok(()) => 200 <= status < 300,
            Err(NotifyError::Transport(why)) => !(200 <= status < 300) && why@
                == "webhook returned status "@ + shown@,
        },
{
    if 200 <= status && status < 300 {
        Ok(())
    } else {
        let mut why = "webhook returned status ".to_owned();
        why.append(shown);
        Err(NotifyError::Transport(why))
    }
}

/// What a notification says: which event it is, of which repair and torrent, and
/// why or for how many whole seconds.
pub proof fn what_a_notification_says(event: NotificationEvent)
    ensures
        match event {
            NotificationEvent::ParkedForReview { job, tracker, torrent_name, reason } => event.doc()
                == Doc::Object(
                seq!["event"@, "job"@, "tracker"@, "torrent_name"@, "reason"@],
                seq![
                    Doc::Text("parked_for_review"@),
                    Doc::Number(job.0 as int),
                    Doc::Text(tracker@),
                    Doc::Text(torrent_name@),
                    Doc::Text(reason@),
                ],
            ),
            NotificationEvent::Completed { job, tracker, torrent_name } => event.doc()
                == Doc::Object(
                seq!["event"@, "job"@, "tracker"@, "torrent_name"@],
                seq![
                    Doc::Text("completed"@),
                    Doc::Number(job.0 as int),
                    Doc::Text(tracker@),
                    Doc::Text(torrent_name@),
                ],
            ),
            NotificationEvent::TrackerUnreachable { tracker, unreachable_for } => event.doc()
                == Doc::Object(
                seq!["event"@, "tracker"@, "unreachable_for_seconds"@],
                seq![
                    Doc::Text("tracker_unreachable"@),
                    Doc::Text(tracker@),
                    Doc::Number(unreachable_for@ / 1_000_000_000),
                ],
            ),
        },
{
    let told = event.doc();
    match event {
        NotificationEvent::ParkedForReview { job, tracker, torrent_name, reason } => {
            assert(told->Object_0 =~= seq![
                "event"@,
                "job"@,
                "tracker"@,
                "torrent_name"@,
                "reason"@,
            ]);
            assert(told->Object_1 =~= seq![
                Doc::Text("parked_for_review"@),
                Doc::Number(job.0 as int),
                Doc::Text(tracker@),
                Doc::Text(torrent_name@),
                Doc::Text(reason@),
            ]);
        },
        NotificationEvent::Completed { job, tracker, torrent_name } => {
            assert(told->Object_0 =~= seq!["event"@, "job"@, "tracker"@, "torrent_name"@]);
            assert(told->Object_1 =~= seq![
                Doc::Text("completed"@),
                Doc::Number(job.0 as int),
                Doc::Text(tracker@),
                Doc::Text(torrent_name@),
            ]);
        },
        NotificationEvent::TrackerUnreachable { tracker, unreachable_for } => {
            assert(told->Object_0 =~= seq!["event"@, "tracker"@, "unreachable_for_seconds"@]);
            assert(told->Object_1 =~= seq![
                Doc::Text("tracker_unreachable"@),
                Doc::Text(tracker@),
                Doc::Number(unreachable_for@ / 1_000_000_000),
            ]);
        },
    }
}

} // verus!
