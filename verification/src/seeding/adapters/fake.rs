//! An in-memory download client that behaves like one.
//!
//! It keeps torrents paused until told otherwise, takes a configurable number
//! of polls to finish a recheck, and reports whatever completeness was asked
//! for. Call counts are exposed so that a repair which crashed and restarted
//! can be seen not to have added the same torrent twice.

use vstd::prelude::*;

use crate::seeding::{
    AddTorrent, ClientError, ClientSummary, ClientTorrentState, DataCompleteness, FileProgress,
    TorrentStatus,
};
use crate::table::Table;
use crate::torrent::InfoHash;

verus! {

/// A torrent in the client.
#[derive(Debug, PartialEq, Eq)]
pub struct Entry {
    pub state: ClientTorrentState,
    pub completeness: DataCompleteness,
    pub save_path: String,
    /// Polls remaining before a recheck finishes.
    pub checks_remaining: usize,
    /// Set once a forced error overrides whatever a recheck would otherwise
    /// report.
    pub message: Option<String>,
    pub uploaded_bytes: u64,
    pub seeding_seconds: Option<u64>,
}

impl Clone for Entry {
    fn clone(&self) -> (r: Entry)
        ensures
            r == *self,
    {
        Entry {
            state: self.state,
            completeness: self.completeness,
            save_path: self.save_path.clone(),
            checks_remaining: self.checks_remaining,
            message: self.message.clone(),
            uploaded_bytes: self.uploaded_bytes,
            seeding_seconds: self.seeding_seconds,
        }
    }
}

/// What the client holds and was told.
pub struct Held {
    pub torrents: Map<Seq<u8>, Entry>,
    /// What a recheck will conclude, per torrent. Absent means complete.
    pub on_disk: Map<Seq<u8>, DataCompleteness>,
    /// The per-file breakdown, per torrent. Absent means none is offered.
    pub file_progress: Map<Seq<u8>, Vec<FileProgress>>,
    pub queued: Map<Seq<u8>, bool>,
    /// How many polls a recheck takes.
    pub recheck_polls: usize,
    pub added: usize,
    pub rechecked: usize,
    pub resumed: usize,
    /// What the next call fails with.
    pub next_error: Option<ClientError>,
}

#[derive(Debug)]
pub struct FakeTorrentClient {
    torrents: Table<InfoHash, Entry>,
    on_disk: Table<InfoHash, DataCompleteness>,
    file_progress: Table<InfoHash, Vec<FileProgress>>,
    queued: Table<InfoHash, bool>,
    recheck_polls: usize,
    added: usize,
    rechecked: usize,
    resumed: usize,
    next_error: Option<ClientError>,
}

impl View for FakeTorrentClient {
    type V = Held;

    closed spec fn view(&self) -> Held {
        Held {
            torrents: self.torrents@,
            on_disk: self.on_disk@,
            file_progress: self.file_progress@,
            queued: self.queued@,
            recheck_polls: self.recheck_polls,
            added: self.added,
            rechecked: self.rechecked,
            resumed: self.resumed,
            next_error: self.next_error,
        }
    }
}

impl Held {
    /// What a recheck of a torrent finds.
    pub open spec fn found_on_disk(self, hash: Seq<u8>) -> DataCompleteness {
        if self.on_disk.dom().contains(hash) {
            self.on_disk[hash]
        } else {
            DataCompleteness::Complete
        }
    }

    /// The check of a torrent is queued rather than running.
    pub open spec fn is_queued(self, hash: Seq<u8>) -> bool {
        self.queued.dom().contains(hash) && self.queued[hash]
    }

    /// With another entry for a torrent.
    pub open spec fn with_entry(self, hash: Seq<u8>, entry: Entry) -> Held {
        Held { torrents: self.torrents.insert(hash, entry), ..self }
    }

    /// The call fails with the error that was asked for, which is used up, and
    /// nothing else changes.
    pub open spec fn fails_once(self, error: ClientError, after: Held) -> bool {
        self.next_error == Some(error) && after == (Held { next_error: None, ..self })
    }
}

/// A torrent that was just added: nothing is known about its data until a
/// recheck happens.
pub open spec fn fresh(entry: Entry, save_path: Seq<char>) -> bool {
    &&& entry.state is Paused
    &&& entry.completeness == (DataCompleteness::Partial { ratio_bits: 0 })
    &&& entry.save_path@ == save_path
    &&& entry.checks_remaining == 0
    &&& entry.message is None
    &&& entry.uploaded_bytes == 0
    &&& entry.seeding_seconds is None
}

/// What adding a torrent comes to.
pub open spec fn added_paused(
    held: Held,
    request: AddTorrent,
    r: Result<(), ClientError>,
    after: Held,
) -> bool {
    if held.next_error is Some {
        r is Err && held.fails_once(r->Err_0, after)
    } else if request.torrent_file@.len() == 0 {
        &&& r matches Err(ClientError::Rejected(why)) && why@ == "empty torrent file"@
        &&& after == held
    } else if held.torrents.dom().contains(request.info_hash@) {
        r is Ok && after == held
    } else {
        &&& r is Ok
        &&& exists|entry: Entry| #[trigger]
            fresh(entry, request.save_path@) && after == (Held {
                added: (held.added + 1) as usize,
                ..held.with_entry(request.info_hash@, entry)
            })
    }
}

/// What asking for a check comes to.
pub open spec fn rechecks(
    held: Held,
    hash: Seq<u8>,
    r: Result<(), ClientError>,
    after: Held,
) -> bool {
    if held.next_error is Some {
        r is Err && held.fails_once(r->Err_0, after)
    } else if !held.torrents.dom().contains(hash) {
        &&& r matches Err(ClientError::Rejected(why)) && why@ == "unknown torrent"@
        &&& after == held
    } else if held.torrents[hash].state is Checking {
        r is Ok && after == held
    } else {
        &&& r is Ok
        &&& after == (Held {
            rechecked: (held.rechecked + 1) as usize,
            ..held.with_entry(
                hash,
                (Entry {
                    state: ClientTorrentState::Checking,
                    checks_remaining: held.recheck_polls,
                    ..held.torrents[hash]
                }),
            )
        })
    }
}

/// What resuming a torrent comes to.
pub open spec fn resumes(
    held: Held,
    hash: Seq<u8>,
    r: Result<(), ClientError>,
    after: Held,
) -> bool {
    if held.next_error is Some {
        r is Err && held.fails_once(r->Err_0, after)
    } else if !held.torrents.dom().contains(hash) {
        &&& r matches Err(ClientError::Rejected(why)) && why@ == "unknown torrent"@
        &&& after == held
    } else if held.torrents[hash].state is Seeding {
        r is Ok && after == held
    } else {
        &&& r is Ok
        &&& after == (Held {
            resumed: (held.resumed + 1) as usize,
            ..held.with_entry(
                hash,
                (Entry {
                    state: if held.found_on_disk(hash) is Complete {
                        ClientTorrentState::Seeding
                    } else {
                        ClientTorrentState::Downloading
                    },
                    ..held.torrents[hash]
                }),
            )
        })
    }
}

/// A torrent after one more poll: a running check comes closer to its end.
pub open spec fn polled(entry: Entry) -> Entry {
    if entry.state !is Checking {
        entry
    } else if entry.checks_remaining > 0 {
        Entry { checks_remaining: (entry.checks_remaining - 1) as usize, ..entry }
    } else {
        Entry { state: ClientTorrentState::Paused, ..entry }
    }
}

/// What a poll of a torrent reports.
pub open spec fn reports(held: Held, hash: Seq<u8>, status: TorrentStatus) -> bool {
    let entry = polled(held.torrents[hash]);
    &&& status.state == entry.state
    &&& status.completeness == if entry.state is Checking {
        entry.completeness
    } else {
        held.found_on_disk(hash)
    }
    &&& status.save_path@ == entry.save_path@
    &&& match status.files {
        Some(files) => held.file_progress.dom().contains(hash) && files@
            == held.file_progress[hash]@,
        None => !held.file_progress.dom().contains(hash),
    }
    &&& status.queued == (entry.state is Checking && held.is_queued(hash))
    &&& status.message == entry.message
    &&& status.uploaded_bytes == entry.uploaded_bytes
    &&& status.seeding_seconds == entry.seeding_seconds
}

fn copy_progress(files: &Vec<FileProgress>) -> (r: Vec<FileProgress>)
    ensures
        r@ == files@,
{
    let mut out: Vec<FileProgress> = Vec::new();
    let mut i: usize = 0;
    while i < files.len()
        invariant
            i <= files@.len(),
            out@ =~= files@.take(i as int),
        decreases files@.len() - i,
    {
        out.push(files[i].clone());
        i += 1;
    }
    assert(files@.take(i as int) =~= files@);
    out
}

impl FakeTorrentClient {
    /// An empty client whose rechecks take one poll.
    pub fn new() -> (r: FakeTorrentClient)
        ensures
            r@ == (Held {
                torrents: Map::empty(),
                on_disk: Map::empty(),
                file_progress: Map::empty(),
                queued: Map::empty(),
                recheck_polls: 1,
                added: 0,
                rechecked: 0,
                resumed: 0,
                next_error: None,
            }),
    {
        FakeTorrentClient {
            torrents: Table::new(),
            on_disk: Table::new(),
            file_progress: Table::new(),
            queued: Table::new(),
            recheck_polls: 1,
            added: 0,
            rechecked: 0,
            resumed: 0,
            next_error: None,
        }
    }

    /// Decide what a recheck of this torrent will find.
    ///
    /// Takes effect on the next poll once no check is running, live rather than
    /// remembered, so it can change between the verify step's read and the
    /// resume step's.
    pub fn set_on_disk(&mut self, info_hash: InfoHash, completeness: DataCompleteness)
        ensures
            final(self)@ == (Held {
                on_disk: old(self)@.on_disk.insert(info_hash@, completeness),
                ..old(self)@
            }),
    {
        self.on_disk.put(info_hash, completeness);
    }

    /// How many polls a recheck takes to finish. Zero makes rechecks instant;
    /// the default of one forces the workflow through its "still checking"
    /// branch.
    pub fn set_recheck_polls(&mut self, polls: usize)
        ensures
            final(self)@ == (Held { recheck_polls: polls, ..old(self)@ }),
    {
        self.recheck_polls = polls;
    }

    /// The per-file breakdown a recheck will report for this torrent.
    pub fn set_file_progress(&mut self, info_hash: InfoHash, files: Vec<FileProgress>)
        ensures
            final(self)@ == (Held {
                file_progress: old(self)@.file_progress.insert(info_hash@, files),
                ..old(self)@
            }),
    {
        self.file_progress.put(info_hash, files);
    }

    /// Report a running check as queued rather than actively checking.
    pub fn set_queued(&mut self, info_hash: InfoHash, queued: bool)
        ensures
            final(self)@ == (Held {
                queued: old(self)@.queued.insert(info_hash@, queued),
                ..old(self)@
            }),
    {
        self.queued.put(info_hash, queued);
    }

    /// Force the torrent into an error, as if the client hit a disk error or a
    /// missing file mid-check.
    pub fn set_errored(&mut self, info_hash: InfoHash, message: &str)
        ensures
            if old(self)@.torrents.dom().contains(info_hash@) {
                let was = old(self)@.torrents[info_hash@];
                exists|entry: Entry|
                    {
                        &&& #[trigger] old(self)@.with_entry(info_hash@, entry) == final(self)@
                        &&& entry.state is Errored
                        &&& entry.message matches Some(text) && text@ == message@
                        &&& entry == (Entry {
                            state: entry.state,
                            message: entry.message,
                            ..was
                        })
                    }
            } else {
                final(self)@ == old(self)@
            },
    {
        let ghost before = self@;
        match self.torrents.get(&info_hash) {
            Some(entry) => {
                let mut next = entry.clone();
                next.state = ClientTorrentState::Errored;
                next.message = Some(message.to_owned());
                let ghost now = next;
                self.torrents.put(info_hash, next);
                assert(self@ == before.with_entry(info_hash@, now));
            },
            None => {},
        }
    }

    /// Force a torrent already in the client into `state`, bypassing the normal
    /// transitions: an operator pausing the torrent by hand, or the client
    /// starting to re-download data it previously reported as complete.
    pub fn force_state(&mut self, info_hash: InfoHash, state: ClientTorrentState)
        ensures
            final(self)@ == if old(self)@.torrents.dom().contains(info_hash@) {
                old(self)@.with_entry(
                    info_hash@,
                    (Entry { state, ..old(self)@.torrents[info_hash@] }),
                )
            } else {
                old(self)@
            },
    {
        match self.torrents.get(&info_hash) {
            Some(entry) => {
                let mut next = entry.clone();
                next.state = state;
                self.torrents.put(info_hash, next);
            },
            None => {},
        }
    }

    /// What the next poll reports for uploaded bytes and elapsed seeding time.
    pub fn set_seeding_progress(
        &mut self,
        info_hash: InfoHash,
        uploaded_bytes: u64,
        seeding_seconds: Option<u64>,
    )
        ensures
            final(self)@ == if old(self)@.torrents.dom().contains(info_hash@) {
                old(self)@.with_entry(
                    info_hash@,
                    (Entry {
                        uploaded_bytes,
                        seeding_seconds,
                        ..old(self)@.torrents[info_hash@]
                    }),
                )
            } else {
                old(self)@
            },
    {
        match self.torrents.get(&info_hash) {
            Some(entry) => {
                let mut next = entry.clone();
                next.uploaded_bytes = uploaded_bytes;
                next.seeding_seconds = seeding_seconds;
                self.torrents.put(info_hash, next);
            },
            None => {},
        }
    }

    pub fn fail_next_call_with(&mut self, error: ClientError)
        ensures
            final(self)@ == (Held { next_error: Some(error), ..old(self)@ }),
    {
        self.next_error = Some(error);
    }

    /// Simulate an operator removing the torrent behind our back.
    pub fn forget(&mut self, info_hash: InfoHash)
        ensures
            final(self)@ == (Held {
                torrents: old(self)@.torrents.remove(info_hash@),
                ..old(self)@
            }),
    {
        self.torrents.remove(&info_hash);
    }

    pub fn add_count(&self) -> (r: usize)
        ensures
            r == self@.added,
    {
        self.added
    }

    pub fn recheck_count(&self) -> (r: usize)
        ensures
            r == self@.rechecked,
    {
        self.rechecked
    }

    pub fn resume_count(&self) -> (r: usize)
        ensures
            r == self@.resumed,
    {
        self.resumed
    }

    fn take_error(&mut self) -> (r: Option<ClientError>)
        ensures
            r == old(self)@.next_error,
            final(self)@ == (Held { next_error: None, ..old(self)@ }),
    {
        self.next_error.take()
    }

    fn completeness_of(&self, info_hash: InfoHash) -> (r: DataCompleteness)
        ensures
            r == self@.found_on_disk(info_hash@),
    {
        match self.on_disk.get(&info_hash) {
            Some(completeness) => *completeness,
            None => DataCompleteness::Complete,
        }
    }

    /// Add a torrent, paused. Re-adding one is a no-op.
    pub fn add_paused(&mut self, request: &AddTorrent) -> (r: Result<(), ClientError>)
        requires
            old(self)@.added < usize::MAX,
        ensures
            added_paused(old(self)@, *request, r, final(self)@),
    {
        match self.take_error() {
            Some(error) => return Err(error),
            None => {},
        }
        assert(self@ == old(self)@);
        if request.torrent_file.len() == 0 {
            return Err(ClientError::Rejected("empty torrent file".to_owned()));
        }
        if self.torrents.get(&request.info_hash).is_some() {
            return Ok(());
        }
        self.added = self.added + 1;
        let entry = Entry {
            state: ClientTorrentState::Paused,
            completeness: DataCompleteness::Partial { ratio_bits: 0 },
            save_path: request.save_path.clone(),
            checks_remaining: 0,
            message: None,
            uploaded_bytes: 0,
            seeding_seconds: None,
        };
        let ghost added = entry;
        self.torrents.put(request.info_hash, entry);
        assert(fresh(added, request.save_path@));
        Ok(())
    }

    /// What a torrent is doing. Progress is live, not remembered: a real client
    /// re-derives it on every poll.
    pub fn status(&mut self, info_hash: InfoHash) -> (r: Result<Option<TorrentStatus>, ClientError>)
        ensures
            if old(self)@.next_error is Some {
                r is Err && old(self)@.fails_once(r->Err_0, final(self)@)
            } else if !old(self)@.torrents.dom().contains(info_hash@) {
                r == Ok::<Option<TorrentStatus>, ClientError>(None) && final(self)@ == old(self)@
            } else {
                &&& r matches Ok(Some(status)) && reports(old(self)@, info_hash@, status)
                &&& final(self)@ == old(self)@.with_entry(
                    info_hash@,
                    polled(old(self)@.torrents[info_hash@]),
                )
            },
    {
        match self.take_error() {
            Some(error) => return Err(error),
            None => {},
        }
        assert(self@ == old(self)@);
        let mut entry = match self.torrents.get(&info_hash) {
            Some(entry) => entry.clone(),
            None => return Ok(None),
        };
        if entry.state == ClientTorrentState::Checking {
            if entry.checks_remaining > 0 {
                entry.checks_remaining = entry.checks_remaining - 1;
            } else {
                entry.state = ClientTorrentState::Paused;
            }
        }
        assert(entry == polled(old(self)@.torrents[info_hash@]));
        let checking: bool = entry.state == ClientTorrentState::Checking;
        let completeness = if checking {
            entry.completeness
        } else {
            self.completeness_of(info_hash)
        };
        let queued: bool = match self.queued.get(&info_hash) {
            Some(queued) => *queued,
            None => false,
        };
        let files = match self.file_progress.get(&info_hash) {
            Some(files) => Some(copy_progress(files)),
            None => None,
        };
        let status = TorrentStatus {
            state: entry.state,
            completeness,
            save_path: entry.save_path.clone(),
            files,
            queued: checking && queued,
            message: entry.message.clone(),
            uploaded_bytes: entry.uploaded_bytes,
            seeding_seconds: entry.seeding_seconds,
        };
        self.torrents.put(info_hash, entry);
        Ok(Some(status))
    }

    /// Start a recheck. Re-issuing one that is already running is a no-op.
    pub fn recheck(&mut self, info_hash: InfoHash) -> (r: Result<(), ClientError>)
        requires
            old(self)@.rechecked < usize::MAX,
        ensures
            rechecks(old(self)@, info_hash@, r, final(self)@),
    {
        match self.take_error() {
            Some(error) => return Err(error),
            None => {},
        }
        assert(self@ == old(self)@);
        let mut entry = match self.torrents.get(&info_hash) {
            Some(entry) => entry.clone(),
            None => return Err(ClientError::Rejected("unknown torrent".to_owned())),
        };
        if entry.state != ClientTorrentState::Checking {
            self.rechecked = self.rechecked + 1;
            entry.state = ClientTorrentState::Checking;
            entry.checks_remaining = self.recheck_polls;
            self.torrents.put(info_hash, entry);
        }
        Ok(())
    }

    /// Resume a torrent: it seeds where its data is complete, and downloads
    /// otherwise. Resuming one that seeds is a no-op.
    pub fn resume(&mut self, info_hash: InfoHash) -> (r: Result<(), ClientError>)
        requires
            old(self)@.resumed < usize::MAX,
        ensures
            resumes(old(self)@, info_hash@, r, final(self)@),
    {
        match self.take_error() {
            Some(error) => return Err(error),
            None => {},
        }
        assert(self@ == old(self)@);
        let resolved = self.completeness_of(info_hash);
        let mut entry = match self.torrents.get(&info_hash) {
            Some(entry) => entry.clone(),
            None => return Err(ClientError::Rejected("unknown torrent".to_owned())),
        };
        if entry.state != ClientTorrentState::Seeding {
            self.resumed = self.resumed + 1;
            entry.state = if resolved.is_complete() {
                ClientTorrentState::Seeding
            } else {
                ClientTorrentState::Downloading
            };
            self.torrents.put(info_hash, entry);
        }
        Ok(())
    }

    /// Take a torrent out of the client.
    pub fn remove(&mut self, info_hash: InfoHash, _delete_files: bool) -> (r: Result<
        (),
        ClientError,
    >)
        ensures
            if old(self)@.next_error is Some {
                r is Err && old(self)@.fails_once(r->Err_0, final(self)@)
            } else {
                &&& r is Ok
                &&& final(self)@ == (Held {
                    torrents: old(self)@.torrents.remove(info_hash@),
                    ..old(self)@
                })
            },
    {
        match self.take_error() {
            Some(error) => return Err(error),
            None => {},
        }
        assert(self@ == old(self)@);
        self.torrents.remove(&info_hash);
        Ok(())
    }

    /// How many torrents the client has.
    pub fn summary(&self) -> (r: Result<ClientSummary, ClientError>)
        ensures
            r matches Ok(summary) && self@.torrents.dom().finite() && summary.torrent_count
                == self@.torrents.dom().len(),
    {
        let count: usize = self.torrents.len();
        proof {
            crate::table::listing_size(self.torrents.all());
        }
        Ok(ClientSummary { torrent_count: count })
    }
}

/// A check takes as many looks as it was set to, and one more to find it over;
/// looking at anything else changes nothing.
pub proof fn a_check_takes_its_looks(entry: Entry)
    ensures
        entry.state !is Checking ==> polled(entry) == entry,
        entry.state is Checking && entry.checks_remaining > 0 ==> polled(entry).state is Checking
            && polled(entry).checks_remaining == entry.checks_remaining - 1,
        entry.state is Checking && entry.checks_remaining == 0 ==> polled(entry).state is Paused,
        polled(entry).uploaded_bytes == entry.uploaded_bytes,
        polled(entry).message == entry.message,
{
}

/// What is told of a torrent is what is on disk, all of it unless something else
/// was set, as soon as no check is running.
pub proof fn what_is_on_disk_is_told(held: Held, hash: Seq<u8>, status: TorrentStatus)
    requires
        held.torrents.dom().contains(hash),
        reports(held, hash, status),
    ensures
        held.torrents[hash].state !is Checking ==> status.state == held.torrents[hash].state,
        held.torrents[hash].state !is Checking && held.on_disk.dom().contains(hash)
            ==> status.completeness == held.on_disk[hash],
        held.torrents[hash].state !is Checking && !held.on_disk.dom().contains(hash)
            ==> status.completeness is Complete,
        held.torrents[hash].state is Checking && held.torrents[hash].checks_remaining > 0
            ==> status.state is Checking && status.completeness
            == held.torrents[hash].completeness,
        held.torrents[hash].state is Checking && held.torrents[hash].checks_remaining == 0
            ==> status.state is Paused,
{
}

/// A torrent is added once, paused and with nothing known of its data: adding it
/// again changes nothing, and a file without bytes is refused.
pub proof fn a_torrent_is_added_once(
    held: Held,
    request: AddTorrent,
    first: Result<(), ClientError>,
    between: Held,
    second: Result<(), ClientError>,
    after: Held,
)
    requires
        held.next_error is None,
        held.added < usize::MAX,
        added_paused(held, request, first, between),
        added_paused(between, request, second, after),
    ensures
        first is Ok <==> request.torrent_file@.len() > 0,
        first is Ok ==> second is Ok && after == between && between.torrents.dom().contains(
            request.info_hash@,
        ),
        first is Ok && !held.torrents.dom().contains(request.info_hash@) ==> {
            &&& between.torrents[request.info_hash@].state is Paused
            &&& between.torrents[request.info_hash@].save_path@ == request.save_path@
            &&& between.added == held.added + 1
        },
        first is Err ==> between == held,
{
}

/// A torrent that is resumed seeds where all of its data is on disk and downloads
/// what is missing otherwise; a check begins with the looks that it was set to; and
/// neither is possible of a torrent that is not there.
pub proof fn what_resuming_and_checking_do(
    held: Held,
    hash: Seq<u8>,
    r: Result<(), ClientError>,
    after: Held,
)
    requires
        held.next_error is None,
    ensures
        resumes(held, hash, r, after) ==> (r is Ok <==> held.torrents.dom().contains(hash)),
        rechecks(held, hash, r, after) ==> (r is Ok <==> held.torrents.dom().contains(hash)),
        r is Err && (resumes(held, hash, r, after) || rechecks(held, hash, r, after)) ==> after
            == held,
        resumes(held, hash, r, after) && r is Ok && held.torrents[hash].state !is Seeding ==> (
        after.torrents[hash].state is Seeding <==> !held.on_disk.dom().contains(hash)
            || held.on_disk[hash] is Complete),
        resumes(held, hash, r, after) && r is Ok ==> after.torrents[hash].state is Seeding
            || after.torrents[hash].state is Downloading,
        rechecks(held, hash, r, after) && r is Ok ==> after.torrents[hash].state is Checking,
        rechecks(held, hash, r, after) && r is Ok && held.torrents[hash].state !is Checking
            ==> after.torrents[hash].checks_remaining == held.recheck_polls,
{
}

} // verus!
