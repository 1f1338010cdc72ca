//! `Discovered → TorrentFetched`: get the `.torrent` and read it.
//!
//! The bytes are stored on the job in the same transaction as the transition,
//! so the tracker is never asked for the same torrent twice unless the download
//! itself failed.

use vstd::prelude::*;

use super::outcome::{review_error, review_stub, review_unconfigured, StepOutcome};
use crate::json::{Doc, Json};
use crate::repair::domain::{RepairJob, ReviewReason};
use crate::repair::ports::{Changes, JobPatch, PlannedFile};
use crate::torrent::adapters::bencode::BencodeInspector;
use crate::torrent::{InfoHash, InspectError, TorrentFile, TorrentMetadata};
use crate::tracker::TrackerError;

verus! {

/// A file of the torrent, planned: nothing is chosen for it yet.
pub open spec fn planned(file: TorrentFile) -> PlannedFile {
    PlannedFile {
        torrent_path: file.path,
        length: file.length,
        source: None,
        confidence: None,
        evidence: None,
        materialized_as: None,
        recheck_progress: None,
    }
}

/// What is told of a torrent that was fetched.
pub open spec fn torrent_doc(metadata: TorrentMetadata) -> Doc {
    crate::json::fact(
        "info_hash"@,
        Doc::Text(crate::torrent::domain::hex(metadata.info_hash@)),
    ).with("files"@, Doc::Number(metadata.files@.len() as int)).with(
        "total_bytes"@,
        Doc::Number(crate::torrent::domain::total_of(metadata.files@)),
    )
}

/// The tracker told another info-hash than the torrent has.
pub open spec fn hash_differs(expected: Option<InfoHash>, metadata: TorrentMetadata) -> bool {
    expected matches Some(hash) && hash@ != metadata.info_hash@
}

/// What a fetched torrent comes to.
pub open spec fn torrent_judged(
    job: RepairJob,
    bytes: Seq<u8>,
    inspected: Result<TorrentMetadata, InspectError>,
    outcome: StepOutcome,
) -> bool {
    match inspected {
        Err(InspectError::NotImplemented(details)) => outcome.parks_with(
            ReviewReason::AdapterNotImplemented,
            super::outcome::stub_doc(details),
        ),
        Err(error) => outcome.parks_with(
            if error is UnsafePath {
                ReviewReason::UnsafeTorrentPaths
            } else {
                ReviewReason::TorrentUnreadable
            },
            super::outcome::error_doc(error.sentence()),
        ),
        Ok(metadata) => if hash_differs(job.info_hash, metadata) {
            outcome.parks_with(
                ReviewReason::InfoHashMismatch,
                crate::json::fact(
                    "tracker"@,
                    Doc::Text(crate::torrent::domain::hex(job.info_hash->0@)),
                ).with(
                    "torrent"@,
                    Doc::Text(crate::torrent::domain::hex(metadata.info_hash@)),
                ),
            )
        } else {
            outcome.advances(
                Some(torrent_doc(metadata)),
                (Changes {
                    info_hash: Some(metadata.info_hash),
                    torrent_file: Some(bytes),
                    total_bytes: Some(crate::torrent::domain::total_of(metadata.files@) as u64),
                    files: Some(metadata.files@.map_values(|file: TorrentFile| planned(file))),
                    ..crate::repair::ports::no_changes()
                }),
            )
        },
    }
}

/// The plan for a torrent's files: nothing is chosen yet.
fn plan_files(files: &Vec<TorrentFile>) -> (r: Vec<PlannedFile>)
    ensures
        r@ == files@.map_values(|file: TorrentFile| planned(file)),
{
    let mut out: Vec<PlannedFile> = Vec::new();
    let mut i: usize = 0;
    while i < files.len()
        invariant
            i <= files@.len(),
            out@ =~= files@.take(i as int).map_values(|file: TorrentFile| planned(file)),
        decreases files@.len() - i,
    {
        out.push(
            PlannedFile {
                torrent_path: files[i].path.clone(),
                length: files[i].length,
                source: None,
                confidence: None,
                evidence: None,
                materialized_as: None,
                recheck_progress: None,
            },
        );
        i += 1;
    }
    assert(files@.take(i as int) =~= files@);
    out
}

/// Judge a torrent that was fetched and read.
pub fn accept_torrent(
    job: &RepairJob,
    bytes: Vec<u8>,
    inspected: Result<TorrentMetadata, InspectError>,
) -> (r: StepOutcome)
    requires
        inspected matches Ok(metadata) ==> crate::torrent::domain::total_of(metadata.files@)
            <= u64::MAX,
    ensures
        torrent_judged(*job, bytes@, inspected, r),
{
    let metadata = match inspected {
        Ok(metadata) => metadata,
        Err(error) => {
            return match &error {
                InspectError::NotImplemented(details) => review_stub(details),
                InspectError::UnsafePath(_) => review_error(
                    ReviewReason::UnsafeTorrentPaths,
                    error.message().as_str(),
                ),
                _ => review_error(ReviewReason::TorrentUnreadable, error.message().as_str()),
            };
        },
    };

    // The tracker told us one info-hash and served a torrent with another.
    // Something is wrong on their side or ours; either way, do not guess.
    match job.info_hash {
        Some(expected) => if !expected.is(&metadata.info_hash) {
            return StepOutcome::review(
                ReviewReason::InfoHashMismatch,
                Json::fact("tracker", Json::Text(expected.to_hex())).with(
                    "torrent",
                    Json::Text(metadata.info_hash.to_hex()),
                ),
            );
        },
        None => {},
    }

    let total: u64 = metadata.total_length();
    let detail = Json::fact("info_hash", Json::Text(metadata.info_hash.to_hex())).with(
        "files",
        Json::count(metadata.file_count()),
    ).with("total_bytes", Json::Unsigned(total));
    let mut patch = JobPatch::default();
    patch.info_hash = Some(metadata.info_hash);
    patch.torrent_file = Some(bytes);
    patch.total_bytes = Some(total);
    patch.files = Some(plan_files(&metadata.files));
    StepOutcome::advance_with(detail, patch)
}

/// The lengths that a torrent declares, where it is one that can be read, add
/// up to a number that fits.
pub open spec fn declared_total_fits(bytes: Seq<u8>) -> bool {
    bytes.len() <= crate::torrent::adapters::bencode::MAX_TORRENT_BYTES ==> forall|v: crate::torrent::adapters::grammar::Ben|
        crate::torrent::adapters::grammar::readable(v, 0)
            && #[trigger] crate::torrent::adapters::grammar::starts(
            bytes,
            crate::torrent::adapters::grammar::encode(v),
        ) && crate::torrent::adapters::bencode::declared(v) is Ok ==> lengths(
            crate::torrent::adapters::bencode::declared(v)->Ok_0.files,
        ) <= u64::MAX
}

/// The declared lengths together.
pub open spec fn lengths(files: Seq<(Seq<char>, int)>) -> int
    decreases files.len(),
{
    if files.len() == 0 {
        0
    } else {
        lengths(files.drop_last()) + files.last().1
    }
}

proof fn lengths_are_the_total(files: Seq<TorrentFile>, declared: Seq<(Seq<char>, int)>)
    requires
        crate::torrent::adapters::bencode::files_say(files, declared),
    ensures
        crate::torrent::domain::total_of(files) == lengths(declared),
    decreases files.len(),
{
    if files.len() > 0 {
        assert(files.last().length == declared.last().1);
        assert(crate::torrent::adapters::bencode::files_say(
            files.drop_last(),
            declared.drop_last(),
        )) by {
            assert forall|i: int| 0 <= i < files.drop_last().len() implies (
            #[trigger] files.drop_last()[i]).path@ == declared.drop_last()[i].0
                && files.drop_last()[i].length == declared.drop_last()[i].1 by {
                assert(files[i].path@ == declared[i].0);
            }
        }
        lengths_are_the_total(files.drop_last(), declared.drop_last());
    }
}

/// Whether the lengths that a torrent declares add up to a number that fits.
pub fn total_fits(bytes: &[u8]) -> (r: bool)
    ensures
        r == declared_total_fits(bytes@),
{
    let inspected = BencodeInspector.inspect(bytes);
    assert(bytes@.skip(0) =~= bytes@);
    match inspected {
        Err(_) => true,
        Ok(metadata) => {
            let mut total: u64 = 0;
            let mut i: usize = 0;
            let ghost v = choose|v: crate::torrent::adapters::grammar::Ben|
                crate::torrent::adapters::grammar::readable(v, 0)
                    && #[trigger] crate::torrent::adapters::grammar::starts(
                    bytes@.skip(0),
                    crate::torrent::adapters::grammar::encode(v),
                );
            proof {
                assert forall|w: crate::torrent::adapters::grammar::Ben|
                    crate::torrent::adapters::grammar::readable(w, 0)
                        && #[trigger] crate::torrent::adapters::grammar::starts(
                        bytes@,
                        crate::torrent::adapters::grammar::encode(w),
                    ) implies lengths(crate::torrent::adapters::bencode::declared(w)->Ok_0.files)
                    == crate::torrent::domain::total_of(metadata.files@) by {
                    lengths_are_the_total(
                        metadata.files@,
                        crate::torrent::adapters::bencode::declared(w)->Ok_0.files,
                    );
                }
                assert(crate::torrent::adapters::grammar::starts(
                    bytes@,
                    crate::torrent::adapters::grammar::encode(v),
                ));
            }
            while i < metadata.files.len()
                invariant
                    i <= metadata.files@.len(),
                    total == crate::torrent::domain::total_of(metadata.files@.take(i as int)),
                    bytes@.len() <= crate::torrent::adapters::bencode::MAX_TORRENT_BYTES,
                    crate::torrent::adapters::grammar::readable(v, 0),
                    crate::torrent::adapters::grammar::starts(
                        bytes@,
                        crate::torrent::adapters::grammar::encode(v),
                    ),
                    crate::torrent::adapters::bencode::declared(v) is Ok,
                    lengths(crate::torrent::adapters::bencode::declared(v)->Ok_0.files)
                        == crate::torrent::domain::total_of(metadata.files@),
                decreases metadata.files@.len() - i,
            {
                proof {
                    assert(metadata.files@.take(i + 1).drop_last() =~= metadata.files@.take(
                        i as int,
                    ));
                    crate::torrent::domain::total_grows(metadata.files@, i + 1);
                }
                match total.checked_add(metadata.files[i].length) {
                    Some(sum) => {
                        total = sum;
                    },
                    None => return false,
                }
                i += 1;
            }
            assert(metadata.files@.take(i as int) =~= metadata.files@);
            true
        },
    }
}

/// What a tracker's reply comes to.
pub open spec fn fetch_judged(
    job: RepairJob,
    fetched: Option<Result<Vec<u8>, TrackerError>>,
    outcome: StepOutcome,
) -> bool {
    match fetched {
        None => outcome.parks_with(
            ReviewReason::TrackerStatusUnclear,
            super::outcome::error_doc(super::outcome::not_configured(job.tracker@)),
        ),
        Some(Err(TrackerError::NotImplemented(details))) => outcome.parks_with(
            ReviewReason::AdapterNotImplemented,
            super::outcome::stub_doc(details),
        ),
        Some(Err(error)) => outcome.retries(error.sentence()),
        Some(Ok(bytes)) => exists|inspected: Result<TorrentMetadata, InspectError>| #[trigger]
            torrent_judged(job, bytes@, inspected, outcome)
                && crate::torrent::adapters::bencode::inspected_as(bytes@, inspected),
    }
}

/// What the tracker's reply comes to. `None` stands for a tracker that is not
/// configured.
pub fn fetch_torrent(job: &RepairJob, fetched: Option<Result<Vec<u8>, TrackerError>>) -> (r:
    StepOutcome)
    requires
        fetched matches Some(Ok(bytes)) ==> declared_total_fits(bytes@),
    ensures
        fetch_judged(*job, fetched, r),
{
    let bytes = match fetched {
        None => return review_unconfigured(job.tracker.as_str()),
        Some(Err(error)) => {
            return match &error {
                TrackerError::NotImplemented(details) => review_stub(details),
                _ => StepOutcome::retry(error.message()),
            };
        },
        Some(Ok(bytes)) => bytes,
    };
    let inspected = BencodeInspector.inspect(bytes.as_slice());
    proof {
        if inspected is Ok {
            assert(bytes@.skip(0) =~= bytes@);
            let v = choose|v: crate::torrent::adapters::grammar::Ben|
                crate::torrent::adapters::grammar::readable(v, 0)
                    && #[trigger] crate::torrent::adapters::grammar::starts(
                    bytes@.skip(0),
                    crate::torrent::adapters::grammar::encode(v),
                );
            assert(crate::torrent::adapters::grammar::starts(
                bytes@,
                crate::torrent::adapters::grammar::encode(v),
            ));
            lengths_are_the_total(
                inspected->Ok_0.files@,
                crate::torrent::adapters::bencode::declared(v)->Ok_0.files,
            );
        }
    }
    let ghost what = inspected;
    let r = accept_torrent(job, bytes, inspected);
    assert(torrent_judged(*job, bytes@, what, r));
    r
}

/// A torrent that can be read is taken exactly when the tracker told no
/// info-hash or the one that the torrent has; told another, the job is parked
/// over that. Nothing else comes of it.
pub proof fn a_readable_torrent_is_taken_unless_its_hash_is_another(
    job: RepairJob,
    bytes: Seq<u8>,
    metadata: TorrentMetadata,
    outcome: StepOutcome,
)
    requires
        torrent_judged(job, bytes, Ok(metadata), outcome),
    ensures
        job.info_hash is None ==> outcome is Advance,
        job.info_hash matches Some(told) ==> (outcome is Advance <==> told@
            =~= metadata.info_hash@),
        outcome !is Advance ==> (outcome matches StepOutcome::Review { reason, .. } && reason
            == ReviewReason::InfoHashMismatch),
{
}

/// With a torrent that is taken, the job learns its bytes, its info-hash, its
/// files in their order and what they come to together, and nothing of where
/// the files are to come from.
pub proof fn a_taken_torrent_is_kept_with_its_files(
    job: RepairJob,
    bytes: Seq<u8>,
    metadata: TorrentMetadata,
    outcome: StepOutcome,
)
    requires
        torrent_judged(job, bytes, Ok(metadata), outcome),
        outcome is Advance,
    ensures
        outcome matches StepOutcome::Advance { patch, .. } && {
            &&& patch.info_hash == Some(metadata.info_hash)
            &&& patch.torrent_file matches Some(kept) && kept@ == bytes
            &&& patch.total_bytes == Some(crate::torrent::domain::total_of(metadata.files@) as u64)
            &&& patch.files matches Some(plan) && plan@.len() == metadata.files@.len() && forall|i: int|
                0 <= i < plan@.len() ==> {
                    &&& (#[trigger] plan@[i]).torrent_path == metadata.files@[i].path
                    &&& plan@[i].length == metadata.files@[i].length
                    &&& plan@[i].source is None
                    &&& plan@[i].confidence is None
                    &&& plan@[i].materialized_as is None
                    &&& plan@[i].recheck_progress is None
                }
            &&& patch.staging_dir is None
            &&& patch.materialization is None
            &&& patch.resume_approved is None
        },
{
}

/// A torrent that cannot be read always parks the job, over unsafe paths where
/// that is what is wrong with it, and never over anything that it was not.
pub proof fn an_unreadable_torrent_parks_the_job(
    job: RepairJob,
    bytes: Seq<u8>,
    error: InspectError,
    outcome: StepOutcome,
)
    requires
        torrent_judged(job, bytes, Err(error), outcome),
    ensures
        outcome matches StepOutcome::Review { reason, .. } && {
            &&& reason == ReviewReason::UnsafeTorrentPaths <==> error is UnsafePath
            &&& reason == ReviewReason::AdapterNotImplemented <==> error is NotImplemented
            &&& reason == ReviewReason::TorrentUnreadable <==> error is Malformed
                || error is MissingField
        },
{
}

/// The lengths of two lists of files add up, and a single file counts with its
/// own length.
pub proof fn declared_lengths_add_up(a: Seq<(Seq<char>, int)>, b: Seq<(Seq<char>, int)>)
    ensures
        lengths(a + b) == lengths(a) + lengths(b),
        forall|path: Seq<char>, length: int| #[trigger] lengths(seq![(path, length)]) == length,
    decreases b.len(),
{
    if b.len() == 0 {
        assert(a + b =~= a);
    } else {
        assert((a + b).drop_last() =~= a + b.drop_last());
        declared_lengths_add_up(a, b.drop_last());
    }
    assert forall|path: Seq<char>, length: int| #[trigger] lengths(seq![(path, length)])
        == length by {
        assert(seq![(path, length)].drop_last() =~= Seq::<(Seq<char>, int)>::empty());
        assert(lengths(Seq::<(Seq<char>, int)>::empty()) == 0);
    }
}

/// Only a tracker that could not be reached is asked again. One that is not
/// configured, and one whose adapter is a stub, parks the job; bytes that came
/// back are judged for what they are.
pub proof fn a_torrent_is_fetched_again_only_after_a_failed_request(
    job: RepairJob,
    fetched: Option<Result<Vec<u8>, TrackerError>>,
    outcome: StepOutcome,
)
    requires
        fetch_judged(job, fetched, outcome),
    ensures
        outcome is Retry <==> (fetched matches Some(Err(error)) && error !is NotImplemented),
        fetched is None ==> (outcome matches StepOutcome::Review { reason, .. } && reason
            == ReviewReason::TrackerStatusUnclear),
        (fetched matches Some(Err(error)) && error is NotImplemented) ==> (
        outcome matches StepOutcome::Review { reason, .. } && reason
            == ReviewReason::AdapterNotImplemented),
        outcome is Advance ==> fetched matches Some(Ok(_)),
        outcome !is Wait,
        outcome !is Rewind,
{
}

/// Bytes that hold a torrent are taken exactly when the tracker told no
/// info-hash, or the SHA-1 digest of the bytes that the torrent's own `info` dictionary is
/// written in.
pub proof fn fetched_bytes_are_taken_by_the_hash_of_their_info(
    job: RepairJob,
    bytes: Vec<u8>,
    torrent: crate::torrent::adapters::grammar::Ben,
    outcome: StepOutcome,
)
    requires
        fetch_judged(job, Some(Ok(bytes)), outcome),
        bytes@.len() <= 10_485_760,
        crate::torrent::adapters::grammar::readable(torrent, 0),
        crate::torrent::adapters::grammar::starts(
            bytes@,
            crate::torrent::adapters::grammar::encode(torrent),
        ),
        crate::torrent::adapters::bencode::declared(torrent) is Ok,
    ensures
        outcome is Advance <==> (job.info_hash matches Some(told) ==> told@
            == crate::torrent::adapters::bencode::sha1_of(
            crate::torrent::adapters::bencode::declared(torrent)->Ok_0.info,
        )),
        outcome is Advance || outcome is Review,
{
    let inspected = choose|inspected: Result<TorrentMetadata, InspectError>| #[trigger]
        torrent_judged(job, bytes@, inspected, outcome)
            && crate::torrent::adapters::bencode::inspected_as(bytes@, inspected);
    assert(inspected is Ok);
    a_readable_torrent_is_taken_unless_its_hash_is_another(
        job,
        bytes@,
        inspected->Ok_0,
        outcome,
    );
}

/// What is told of a torrent that was taken: its info-hash, how many files it has
/// and how large they are together.
pub proof fn what_is_told_of_a_torrent(metadata: TorrentMetadata)
    ensures
        torrent_doc(metadata) == Doc::Object(
            seq!["info_hash"@, "files"@, "total_bytes"@],
            seq![
                Doc::Text(crate::torrent::domain::hex(metadata.info_hash@)),
                Doc::Number(metadata.files@.len() as int),
                Doc::Number(crate::torrent::domain::total_of(metadata.files@)),
            ],
        ),
{
    let told = torrent_doc(metadata);
    assert(told->Object_0 =~= seq!["info_hash"@, "files"@, "total_bytes"@]);
    assert(told->Object_1 =~= seq![
        Doc::Text(crate::torrent::domain::hex(metadata.info_hash@)),
        Doc::Number(metadata.files@.len() as int),
        Doc::Number(crate::torrent::domain::total_of(metadata.files@)),
    ]);
}

} // verus!
