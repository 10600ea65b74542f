//! Torrents: adding them, looking into their files, and keeping track of how
//! far they were watched.

use vstd::prelude::*;
use vstd::string::StringExecFns;
use vstd::utf8::{decode_utf8, valid_utf8};

use crate::api_error;
use crate::api_error::{ApiError, Failure};
use crate::error;
use crate::error::Error;
use crate::grab_flow;
use crate::grab_flow::FileEntry;
use crate::library;
use crate::library::{TorrentRow, TorrentView};
use crate::remux;
use crate::search::{TorrentDetails, TorrentSource};
use crate::text;

verus! {

// ---------------------------------------------------------------------------
// Identifiers
// ---------------------------------------------------------------------------

pub open spec fn all_hex(s: Seq<char>) -> bool {
    forall|i: int| 0 <= i < s.len() ==> text::is_hex_digit(#[trigger] s[i])
}

/// An infohash in lower case, refused when it holds anything but hexadecimal
/// digits.
pub fn checked_infohash(infohash: &str) -> (r: Result<String, ApiError>)
    ensures
        match r {
            Ok(s) => s@ == text::lowered(infohash@) && all_hex(s@),
            Err(e) => !all_hex(text::lowered(infohash@)) && e@ == Failure::BadRequest(
                "invalid infohash"@,
            ),
        },
{
    let lower = text::to_ascii_lowercase(infohash);
    let v = text::chars_of(lower.as_str());
    for i in 0..v.len()
        invariant
            v@ == lower@,
            lower@ == text::lowered(infohash@),
            forall|j: int| 0 <= j < i ==> text::is_hex_digit(#[trigger] lower@[j]),
    {
        let c = v[i];
        if !(('0' <= c && c <= '9') || ('a' <= c && c <= 'f') || ('A' <= c && c <= 'F')) {
            assert(!text::is_hex_digit(lower@[i as int]));
            return Err(api_error::bad_request("invalid infohash"));
        }
    }
    Ok(lower)
}

/// A file index as the database stores it; the largest number when it does
/// not fit.
pub fn file_idx_to_i64(idx: usize) -> (r: i64)
    ensures
        r == if idx <= i64::MAX {
            idx as i64
        } else {
            i64::MAX
        },
{
    if idx as u64 <= i64::MAX as u64 {
        idx as i64
    } else {
        i64::MAX
    }
}

/// A file index as a manifest carries it.
pub fn file_idx_to_u32(idx: usize) -> (r: Result<u32, ApiError>)
    ensures
        match r {
            Ok(n) => n == idx,
            Err(e) => idx > u32::MAX && e@ == Failure::BadRequest("file index too large"@),
        },
{
    if idx as u64 <= u32::MAX as u64 {
        Ok(idx as u32)
    } else {
        Err(api_error::bad_request("file index too large"))
    }
}

// ---------------------------------------------------------------------------
// Errors of others
// ---------------------------------------------------------------------------

#[derive(Debug)]
pub enum EngineError {
    NotFound,
    FileOutOfRange,
    Other(String),
}

pub open spec fn engine_failure(e: EngineError) -> Failure {
    match e {
        EngineError::NotFound => Failure::NotFound,
        EngineError::FileOutOfRange => Failure::NotFound,
        EngineError::Other(m) => Failure::Internal(m@),
    }
}

pub fn map_engine_err(e: EngineError) -> (r: ApiError)
    ensures
        r@ == engine_failure(e),
{
    match e {
        EngineError::NotFound => ApiError::NotFound,
        EngineError::FileOutOfRange => ApiError::NotFound,
        EngineError::Other(m) => ApiError::Internal(m),
    }
}

pub open spec fn provider_failure(e: Error) -> Failure {
    match e {
        Error::NotFound(m) => Failure::BadRequest("provider: "@ + m@),
        Error::Provider(m) => Failure::BadRequest("provider: "@ + m@),
        Error::InvalidInput(m) => Failure::BadRequest(m@),
        _ => Failure::Internal(error::message_of(e)),
    }
}

pub fn map_provider_err(e: Error) -> (r: ApiError)
    ensures
        r@ == provider_failure(e),
{
    match e {
        Error::NotFound(m) => ApiError::BadRequest(api_error::prefixed("provider: ", m.as_str())),
        Error::Provider(m) => ApiError::BadRequest(api_error::prefixed("provider: ", m.as_str())),
        Error::InvalidInput(m) => ApiError::BadRequest(m),
        Error::Unauthorized => ApiError::Internal(Error::Unauthorized.message()),
        Error::Forbidden => ApiError::Internal(Error::Forbidden.message()),
        Error::Conflict(m) => ApiError::Internal(Error::Conflict(m).message()),
        Error::ProviderRefused(m) => ApiError::Internal(Error::ProviderRefused(m).message()),
        Error::Internal(m) => ApiError::Internal(Error::Internal(m).message()),
    }
}

/// Whether a failed look into a file may only mean that it is not there yet.
pub open spec fn looks_unfinished(m: Seq<char>) -> bool {
    text::has_text(m, "file not yet on disk"@) || text::has_text(
        m,
        "EBML header parsing failed"@,
    ) || text::has_text(m, "Invalid data found when processing input"@) || text::has_text(
        m,
        "invalid as first byte"@,
    )
}

pub open spec fn probe_failure(m: Seq<char>, torrent_finished: bool) -> Failure {
    if !torrent_finished && looks_unfinished(m) {
        Failure::BadRequest("file not yet on disk: download in progress ("@ + m + ")"@)
    } else {
        Failure::Internal("ffprobe: "@ + m)
    }
}

/// The error for a failed look into a file: to be tried again while the
/// torrent is being downloaded, final once it is complete.
pub fn map_probe_err(msg: &str, torrent_finished: bool) -> (r: ApiError)
    ensures
        r@ == probe_failure(msg@, torrent_finished),
{
    let not_ready = text::contains_text(msg, "file not yet on disk") || text::contains_text(
        msg,
        "EBML header parsing failed",
    ) || text::contains_text(msg, "Invalid data found when processing input")
        || text::contains_text(msg, "invalid as first byte");
    if !torrent_finished && not_ready {
        ApiError::BadRequest(
            api_error::glued("file not yet on disk: download in progress (", msg, ")"),
        )
    } else {
        ApiError::Internal(api_error::prefixed("ffprobe: ", msg))
    }
}

/// Once a torrent is complete, no failed look into a file is to be tried
/// again.
pub proof fn finished_torrent_fails_for_good(m: Seq<char>)
    ensures
        probe_failure(m, true) is Internal,
{
}

// ---------------------------------------------------------------------------
// Progress
// ---------------------------------------------------------------------------

/// How far a file was watched, as a client reports it.
#[derive(Debug, Clone, Copy, PartialEq, Eq, Structural)]
pub struct ProgressUpdate {
    /// Bits of a double-precision number of seconds, never negative.
    pub position_bits: u64,
    pub duration_bits: Option<u64>,
    pub audio_track_idx: Option<i64>,
    pub subtitle_track_idx: Option<i64>,
    pub completed: bool,
    pub playing: Option<bool>,
    /// The user moved to this position deliberately.
    pub seek: bool,
}

/// How far a file had been watched before.
#[derive(Debug, Clone, Copy, PartialEq, Eq, Structural)]
pub struct PreviousProgress {
    pub completed: bool,
    /// At least five minutes in.
    pub well_in: bool,
}

/// Progress to store.
#[derive(Debug, Clone)]
pub struct UpsertProgress {
    pub infohash: String,
    pub file_idx: i64,
    pub position_bits: u64,
    pub duration_bits: Option<u64>,
    pub audio_track_idx: Option<i64>,
    pub subtitle_track_idx: Option<i64>,
    pub completed: bool,
}

/// What becomes of the user among those who are watching.
#[derive(Debug, Clone, Copy, PartialEq, Eq, Structural)]
pub enum Presence {
    Leave,
    Playing,
    Paused,
}

/// What a progress report leads to.
pub struct ProgressPlan {
    pub infohash: String,
    pub file_idx: i64,
    /// What to store, unless the report looks like a player that came back at
    /// the start after an error.
    pub record: Option<UpsertProgress>,
    /// The cache entry to keep warm.
    pub remux_key: String,
    pub presence: Presence,
}

/// Whether a report would lose real progress: it is near the start, not a
/// deliberate move, and the file was watched well beyond.
pub open spec fn loses_progress(
    b: ProgressUpdate,
    near_start: bool,
    previous: Option<PreviousProgress>,
) -> bool {
    !b.seek && !b.completed && near_start && (previous matches Some(p) && !p.completed && p.well_in)
}

/// What a progress report leads to. `near_start` tells whether the position
/// is within the first minute.
pub fn put_progress(
    infohash: &str,
    idx: usize,
    body: ProgressUpdate,
    near_start: bool,
    previous: Option<PreviousProgress>,
) -> (r: Result<ProgressPlan, ApiError>)
    ensures
        match r {
            Err(e) => !all_hex(text::lowered(infohash@)) && e@ == Failure::BadRequest(
                "invalid infohash"@,
            ),
            Ok(p) => {
                let file_idx = if idx <= i64::MAX {
                    idx as i64
                } else {
                    i64::MAX
                };
                &&& all_hex(text::lowered(infohash@))
                &&& p.infohash@ == text::lowered(infohash@)
                &&& p.file_idx == file_idx
                &&& p.remux_key@ == remux::cache_key(text::lowered(infohash@), idx, ""@)
                &&& p.presence == if body.completed {
                    Presence::Leave
                } else if body.playing == Some(false) {
                    Presence::Paused
                } else {
                    Presence::Playing
                }
                &&& match p.record {
                    None => loses_progress(body, near_start, previous),
                    Some(u) => {
                        &&& !loses_progress(body, near_start, previous)
                        &&& u.infohash@ == text::lowered(infohash@)
                        &&& u.file_idx == file_idx
                        &&& u.position_bits == body.position_bits
                        &&& u.duration_bits == body.duration_bits
                        &&& u.audio_track_idx == body.audio_track_idx
                        &&& u.subtitle_track_idx == body.subtitle_track_idx
                        &&& u.completed == body.completed
                    },
                }
            },
        },
{
    let infohash = match checked_infohash(infohash) {
        Ok(s) => s,
        Err(e) => {
            return Err(e);
        },
    };
    let file_idx: i64 = file_idx_to_i64(idx);
    let was_well_in = match previous {
        Some(p) => !p.completed && p.well_in,
        None => false,
    };
    let reset_guarded = !body.seek && !body.completed && near_start && was_well_in;
    let record = if reset_guarded {
        None
    } else {
        Some(
            UpsertProgress {
                infohash: infohash.clone(),
                file_idx,
                position_bits: body.position_bits,
                duration_bits: body.duration_bits,
                audio_track_idx: body.audio_track_idx,
                subtitle_track_idx: body.subtitle_track_idx,
                completed: body.completed,
            },
        )
    };
    let remux_key = remux::remux_key(infohash.as_str(), idx, "");
    let playing = match body.playing {
        Some(p) => p,
        None => true,
    };
    let presence = if body.completed {
        Presence::Leave
    } else if playing {
        Presence::Playing
    } else {
        Presence::Paused
    };
    Ok(ProgressPlan { infohash, file_idx, record, remux_key, presence })
}

/// A deliberate move is always stored, and so is the end of a file.
pub proof fn deliberate_progress_is_kept(
    b: ProgressUpdate,
    near_start: bool,
    previous: Option<PreviousProgress>,
)
    requires
        b.seek || b.completed,
    ensures
        !loses_progress(b, near_start, previous),
{
}

/// Watching a finished file again is stored from its start.
pub proof fn rewatch_is_kept(b: ProgressUpdate, near_start: bool, p: PreviousProgress)
    requires
        p.completed,
    ensures
        !loses_progress(b, near_start, Some(p)),
{
}

// ---------------------------------------------------------------------------
// Adding
// ---------------------------------------------------------------------------

/// Which release to add.
#[derive(Debug, Clone)]
pub struct ResolveBody {
    pub provider_id: String,
    pub external_id: String,
    pub tmdb_id: Option<i64>,
}

pub fn unknown_provider(id: &str) -> (r: ApiError)
    ensures
        r@ == Failure::BadRequest("unknown provider `"@ + id@ + "`"@),
{
    ApiError::BadRequest(api_error::glued("unknown provider `", id, "`"))
}

/// Whether a release is dead: the provider confirms that nobody shares it. A
/// provider that tells no number leaves it alive.
pub open spec fn confirmed_dead(seeders: Option<u32>) -> bool {
    seeders == Some(0u32)
}

pub fn is_dead(details: Option<&TorrentDetails>) -> (r: bool)
    ensures
        r == match details {
            Some(d) => confirmed_dead(d.seeders),
            None => false,
        },
{
    match details {
        Some(d) => match d.seeders {
            Some(n) => n == 0,
            None => false,
        },
        None => false,
    }
}

/// Whether a release may be added: its provider has to be known, and it must
/// not be dead.
pub fn ingest_guard(
    provider_known: bool,
    provider_id: &str,
    details: Option<&TorrentDetails>,
) -> (r: Result<(), ApiError>)
    ensures
        if !provider_known {
            r matches Err(e) && e@ == Failure::BadRequest(
                "unknown provider `"@ + provider_id@ + "`"@,
            )
        } else if details matches Some(d) && confirmed_dead(d.seeders) {
            r matches Err(e) && e@ == Failure::DeadTorrent
        } else {
            r is Ok
        },
{
    if !provider_known {
        return Err(unknown_provider(provider_id));
    }
    if is_dead(details) {
        return Err(ApiError::DeadTorrent);
    }
    Ok(())
}

/// What bytes from a download link are: a magnet link if they start like one
/// and are text, else a torrent file.
pub open spec fn source_of(bytes: Seq<u8>) -> (bool, Seq<char>) {
    if is_magnet(bytes) && valid_utf8(bytes) {
        (true, text::trimmed(decode_utf8(bytes)))
    } else {
        (false, seq![])
    }
}

/// `bytes` start with `magnet:`.
pub open spec fn is_magnet(bytes: Seq<u8>) -> bool {
    seq![109u8, 97u8, 103u8, 110u8, 101u8, 116u8, 58u8].is_prefix_of(bytes)
}

fn magnet_bytes(b: &Vec<u8>) -> (r: bool)
    ensures
        r == is_magnet(b@),
{
    let r = b.len() >= 7 && b[0] == 109 && b[1] == 97 && b[2] == 103 && b[3] == 110 && b[4] == 101
        && b[5] == 116 && b[6] == 58;
    proof {
        let m = seq![109u8, 97u8, 103u8, 110u8, 101u8, 116u8, 58u8];
        if r {
            assert(b@.subrange(0, 7) =~= m);
        } else if is_magnet(b@) {
            assert(b@.subrange(0, 7) == m);
            assert(b@.subrange(0, 7)[0] == m[0]);
            assert(b@.subrange(0, 7)[1] == m[1]);
            assert(b@.subrange(0, 7)[2] == m[2]);
            assert(b@.subrange(0, 7)[3] == m[3]);
            assert(b@.subrange(0, 7)[4] == m[4]);
            assert(b@.subrange(0, 7)[5] == m[5]);
            assert(b@.subrange(0, 7)[6] == m[6]);
        }
    }
    r
}

/// The release behind a download link.
pub fn release_of_bytes(bytes: Vec<u8>) -> (r: TorrentSource)
    ensures
        match r {
            TorrentSource::Magnet(m) => source_of(bytes@) == (true, m@),
            TorrentSource::TorrentFile(b) => !source_of(bytes@).0 && b == bytes,
        },
{
    if magnet_bytes(&bytes) {
        match text::utf8_text(&bytes) {
            Some(s) => {
                return TorrentSource::Magnet(text::trim(s.as_str()));
            },
            None => {},
        }
    }
    TorrentSource::TorrentFile(bytes)
}

/// How a release is found: by a stored download link, or through its
/// provider.
pub enum ReleaseAction {
    Fetch(String),
    AskProvider,
    Done(TorrentSource),
    Fail(ApiError),
}

/// What came back.
pub enum ReleaseEvent {
    /// The stored download link.
    Link(Option<String>),
    Fetched(Vec<u8>),
    FetchFailed,
    Answered(TorrentSource),
    Refused(Error),
}

/// The next step towards a release: a stored link is tried first, and the
/// provider is asked when there is none or when it fails.
pub fn resolve_release(event: ReleaseEvent) -> (r: ReleaseAction)
    ensures
        match event {
            ReleaseEvent::Link(Some(url)) => r == ReleaseAction::Fetch(url),
            ReleaseEvent::Link(None) => r is AskProvider,
            ReleaseEvent::FetchFailed => r is AskProvider,
            ReleaseEvent::Fetched(bytes) => r is Done && match r->Done_0 {
                TorrentSource::Magnet(m) => source_of(bytes@) == (true, m@),
                TorrentSource::TorrentFile(b) => !source_of(bytes@).0 && b == bytes,
            },
            ReleaseEvent::Answered(s) => r == ReleaseAction::Done(s),
            ReleaseEvent::Refused(e) => r is Fail && r->Fail_0@ == provider_failure(e),
        },
{
    match event {
        ReleaseEvent::Link(url) => match url {
            Some(u) => ReleaseAction::Fetch(u),
            None => ReleaseAction::AskProvider,
        },
        ReleaseEvent::FetchFailed => ReleaseAction::AskProvider,
        ReleaseEvent::Fetched(bytes) => ReleaseAction::Done(release_of_bytes(bytes)),
        ReleaseEvent::Answered(s) => ReleaseAction::Done(s),
        ReleaseEvent::Refused(e) => ReleaseAction::Fail(map_provider_err(e)),
    }
}

/// The torrent file to preview; a magnet link has none.
pub fn preview(source: TorrentSource) -> (r: Result<Vec<u8>, ApiError>)
    ensures
        match source {
            TorrentSource::TorrentFile(b) => r == Ok::<Vec<u8>, ApiError>(b),
            TorrentSource::Magnet(_) => r matches Err(e) && e@ == Failure::BadRequest(
                "preview: magnet sources need full ingest first"@,
            ),
        },
{
    match source {
        TorrentSource::TorrentFile(b) => Ok(b),
        TorrentSource::Magnet(_) => Err(
            api_error::bad_request("preview: magnet sources need full ingest first"),
        ),
    }
}

/// A torrent that was added, to be stored.
pub struct IngestRecord {
    pub infohash: String,
    pub name: String,
    pub total_size_bytes: u64,
    pub source_provider: String,
    pub source_external_id: String,
}

/// What is stored of a torrent that was added.
pub fn ingest_core(
    infohash: String,
    name: Option<String>,
    total_size_bytes: u64,
    provider_id: String,
    external_id: String,
) -> (r: IngestRecord)
    ensures
        r.infohash == infohash,
        r.name@ == match name {
            Some(n) => n@,
            None => "<unnamed>"@,
        },
        r.total_size_bytes == total_size_bytes,
        r.source_provider == provider_id,
        r.source_external_id == external_id,
{
    IngestRecord {
        infohash,
        name: match name {
            Some(n) => n,
            None => "<unnamed>".to_string(),
        },
        total_size_bytes,
        source_provider: provider_id,
        source_external_id: external_id,
    }
}

/// The view of a torrent that both the database and the engine know.
pub fn get_one(row: Option<TorrentRow>, known: bool) -> (r: Result<TorrentView, ApiError>)
    ensures
        match row {
            Some(t) => if known {
                r == Ok::<TorrentView, ApiError>(library::view_of(t))
            } else {
                r matches Err(e) && e@ == Failure::NotFound
            },
            None => r matches Err(e) && e@ == Failure::NotFound,
        },
{
    match row {
        None => Err(ApiError::NotFound),
        Some(t) => {
            if !known {
                return Err(ApiError::NotFound);
            }
            let ghost row0 = t;
            let mut one: Vec<(TorrentRow, bool)> = Vec::new();
            one.push((t, true));
            let ghost rows = one@;
            proof {
                assert(rows.drop_last() =~= Seq::empty());
                assert(library::views_of(rows.drop_last()) =~= Seq::empty());
                assert(library::views_of(rows) =~= seq![library::view_of(row0)]);
            }
            let mut views = library::torrent_views(one);
            match views.pop() {
                Some(v) => Ok(v),
                None => Err(ApiError::NotFound),
            }
        },
    }
}

// ---------------------------------------------------------------------------
// Looking into a file
// ---------------------------------------------------------------------------

/// The file with an index.
pub open spec fn file_at(files: Seq<FileEntry>, idx: usize, from: int) -> Option<FileEntry>
    decreases files.len() - from,
{
    if from < 0 || from >= files.len() {
        None
    } else if files[from].index == idx {
        Some(files[from])
    } else {
        file_at(files, idx, from + 1)
    }
}

/// Position of the file with an index; an index that no file has is not found.
pub fn find_file(files: &Vec<FileEntry>, idx: usize) -> (r: Result<usize, ApiError>)
    ensures
        match r {
            Ok(i) => i < files.len() && file_at(files@, idx, 0) == Some(files@[i as int]),
            Err(e) => file_at(files@, idx, 0) is None && e@ == Failure::NotFound,
        },
{
    let mut i: usize = 0;
    while i < files.len()
        invariant
            i <= files.len(),
            file_at(files@, idx, 0) == file_at(files@, idx, i as int),
        decreases files.len() - i,
    {
        if files[i].index == idx {
            return Ok(i);
        }
        i = i + 1;
    }
    Err(ApiError::NotFound)
}

/// Which parts of an incomplete file to fetch before looking into it.
#[derive(Debug, Clone, Copy, PartialEq, Eq, Structural)]
pub struct PrefetchPlan {
    pub header_count: u64,
    pub tail_start: u64,
    pub tail_count: u64,
}

/// The first 64 KiB and the last MiB of an incomplete file.
pub fn prefetch_plan(torrent_finished: bool, size_bytes: u64) -> (r: Option<PrefetchPlan>)
    ensures
        r == if torrent_finished {
            None
        } else {
            Some(
                PrefetchPlan {
                    header_count: 65_536,
                    tail_start: if size_bytes >= 1_048_576 {
                        (size_bytes - 1_048_576) as u64
                    } else {
                        0
                    },
                    tail_count: 1_048_576,
                },
            )
        },
{
    if torrent_finished {
        None
    } else {
        let tail_start: u64 = if size_bytes >= 1_048_576 {
            size_bytes - 1_048_576
        } else {
            0
        };
        Some(PrefetchPlan { header_count: 65_536, tail_start, tail_count: 1_048_576 })
    }
}

/// The torrent as the engine sees it.
#[derive(Debug, Clone)]
pub struct Swarm {
    pub finished: bool,
    pub peers: u64,
    pub download_speed_bps: u64,
    /// The downloaded percentage without decimals.
    pub percent: String,
}

/// A torrent is complete when the database or the engine says so; the engine
/// forgets for a while after a restart.
pub open spec fn is_finished(stamped: bool, snapshot_finished: Option<bool>) -> bool {
    stamped || snapshot_finished == Some(true)
}

pub fn torrent_finished(stamped: bool, snapshot_finished: Option<bool>) -> (r: bool)
    ensures
        r == is_finished(stamped, snapshot_finished),
{
    stamped || match snapshot_finished {
        Some(f) => f,
        None => false,
    }
}

/// Nothing of the file can be read, and nothing is coming.
pub open spec fn is_stalled(finished: bool, header_bytes: u64, swarm: Option<Swarm>) -> bool {
    !finished && header_bytes == 0 && (swarm matches Some(s) && !s.finished && s.peers == 0
        && s.download_speed_bps == 0)
}

pub open spec fn stalled_message(percent: Seq<char>) -> Seq<char> {
    "stalled: no seeders for this file ("@ + percent
        + "% downloaded, 0 peers, 0 B/s) — nothing to read yet"@
}

/// Whether a file can be looked into. `header_bytes` of its head are there,
/// `shown_path` is its path.
pub fn probe_file(
    finished: bool,
    header_bytes: u64,
    swarm: Option<Swarm>,
    on_disk: bool,
    shown_path: &str,
) -> (r: Result<(), ApiError>)
    ensures
        if is_stalled(finished, header_bytes, swarm) {
            r matches Err(e) && e@ == Failure::Conflict(stalled_message(swarm->0.percent@))
        } else if !on_disk {
            r matches Err(e) && e@ == Failure::BadRequest("file not yet on disk: "@ + shown_path@)
        } else {
            r is Ok
        },
{
    if !finished && header_bytes == 0 {
        match swarm {
            Some(s) => {
                if !s.finished && s.peers == 0 && s.download_speed_bps == 0 {
                    return Err(
                        ApiError::Conflict(
                            api_error::glued(
                                "stalled: no seeders for this file (",
                                s.percent.as_str(),
                                "% downloaded, 0 peers, 0 B/s) — nothing to read yet",
                            ),
                        ),
                    );
                }
            },
            None => {},
        }
    }
    if !on_disk {
        return Err(ApiError::BadRequest(api_error::prefixed("file not yet on disk: ", shown_path)));
    }
    Ok(())
}

/// A torrent that is complete is never reported as stalled.
pub proof fn finished_torrent_is_not_stalled(header_bytes: u64, swarm: Option<Swarm>)
    ensures
        !is_stalled(true, header_bytes, swarm),
{
}

/// What a manifest says of a file beyond the probe.
pub struct ManifestInputs {
    pub infohash: String,
    pub file_idx: u32,
    pub filename: String,
    pub size_bytes: u64,
    pub bytes_complete: u64,
}

/// What is known before a file is looked into.
pub struct ManifestRequest {
    pub infohash: String,
    pub position: usize,
}

/// Whether a manifest can be made: the infohash has to be one, the torrent
/// known to the database and to the engine, and the file one of its own.
pub fn manifest_request(
    infohash: &str,
    idx: usize,
    in_database: bool,
    files: Option<&Vec<FileEntry>>,
) -> (r: Result<ManifestRequest, ApiError>)
    ensures
        if !all_hex(text::lowered(infohash@)) {
            r matches Err(e) && e@ == Failure::BadRequest("invalid infohash"@)
        } else if !in_database || files is None {
            r matches Err(e) && e@ == Failure::NotFound
        } else {
            match r {
                Ok(m) => m.infohash@ == text::lowered(infohash@) && m.position < files->0.len()
                    && file_at(files->0@, idx, 0) == Some(files->0@[m.position as int]),
                Err(e) => file_at(files->0@, idx, 0) is None && e@ == Failure::NotFound,
            }
        },
{
    let lower = match checked_infohash(infohash) {
        Ok(s) => s,
        Err(e) => {
            return Err(e);
        },
    };
    if !in_database {
        return Err(ApiError::NotFound);
    }
    match files {
        None => Err(ApiError::NotFound),
        Some(f) => match find_file(f, idx) {
            Ok(i) => Ok(ManifestRequest { infohash: lower, position: i }),
            Err(e) => Err(e),
        },
    }
}

/// What a manifest says of a file: no more of it is complete than it has.
pub fn manifest_json(
    infohash: String,
    idx: usize,
    file: &FileEntry,
    progress_bytes: u64,
) -> (r: Result<ManifestInputs, ApiError>)
    ensures
        match r {
            Ok(m) => {
                &&& m.infohash == infohash
                &&& m.file_idx == idx
                &&& m.filename == file.path
                &&& m.size_bytes == file.size_bytes
                &&& m.bytes_complete == if progress_bytes <= file.size_bytes {
                    progress_bytes
                } else {
                    file.size_bytes
                }
            },
            Err(e) => idx > u32::MAX && e@ == Failure::BadRequest("file index too large"@),
        },
{
    let file_idx = match file_idx_to_u32(idx) {
        Ok(n) => n,
        Err(e) => {
            return Err(e);
        },
    };
    Ok(
        ManifestInputs {
            infohash,
            file_idx,
            filename: file.path.clone(),
            size_bytes: file.size_bytes,
            bytes_complete: if progress_bytes <= file.size_bytes {
                progress_bytes
            } else {
                file.size_bytes
            },
        },
    )
}

/// How many bytes ahead of the playhead to fetch: what thirty seconds take,
/// between 8 MiB and 256 MiB, or 64 MiB when that is unknown.
pub fn playhead_window_bytes(thirty_seconds: Option<u64>) -> (r: u64)
    ensures
        r == match thirty_seconds {
            None => 67_108_864,
            Some(n) => if n < 8_388_608 {
                8_388_608
            } else if n > 268_435_456 {
                268_435_456
            } else {
                n
            },
        },
{
    match thirty_seconds {
        None => 67_108_864,
        Some(n) => {
            if n < 8_388_608 {
                8_388_608
            } else if n > 268_435_456 {
                268_435_456
            } else {
                n
            }
        },
    }
}

// ---------------------------------------------------------------------------
// Preparing a file in advance
// ---------------------------------------------------------------------------

/// What to do next while waiting for a torrent to complete.
#[derive(Debug, Clone, Copy, PartialEq, Eq, Structural)]
pub enum PrewarmAction {
    /// Look again in two seconds.
    Wait,
    /// See whether this file is on disk.
    Check(usize),
    GiveUp,
}

/// A torrent that is being downloaded, as the engine sees it.
pub struct DownloadState {
    pub finished: bool,
    pub files: Vec<FileEntry>,
}

/// How often a torrent is looked at before giving up.
pub const PREWARM_TRIES: u32 = 900;

fn largest_video_index(files: &Vec<FileEntry>) -> (r: Option<usize>)
    ensures
        r == match grab_flow::largest_video(files@, files@.len() as int) {
            Some(f) => Some(f.index),
            None => None,
        },
{
    let mut best: Option<usize> = None;
    for i in 0..files.len()
        invariant
            match best {
                Some(k) => k < i && grab_flow::largest_video(files@, i as int) == Some(
                    files@[k as int],
                ),
                None => grab_flow::largest_video(files@, i as int) is None,
            },
    {
        if grab_flow::video_file(files[i].path.as_str()) {
            best = match best {
                Some(k) => {
                    if files[k].size_bytes > files[i].size_bytes {
                        Some(k)
                    } else {
                        Some(i)
                    }
                },
                None => Some(i),
            };
        }
    }
    match best {
        Some(k) => Some(files[k].index),
        None => None,
    }
}

/// What to do at the `tries`-th look at a torrent: once it is complete, its
/// largest video is checked.
pub fn prewarm_default_remux(tries: u32, state: Option<DownloadState>) -> (r: PrewarmAction)
    ensures
        r == if tries >= PREWARM_TRIES {
            PrewarmAction::GiveUp
        } else {
            match state {
                Some(s) => if s.finished {
                    match grab_flow::largest_video(s.files@, s.files@.len() as int) {
                        Some(f) => PrewarmAction::Check(f.index),
                        None => PrewarmAction::Wait,
                    }
                } else {
                    PrewarmAction::Wait
                },
                None => PrewarmAction::Wait,
            }
        },
{
    if tries >= PREWARM_TRIES {
        return PrewarmAction::GiveUp;
    }
    match state {
        Some(s) => {
            if !s.finished {
                return PrewarmAction::Wait;
            }
            match largest_video_index(&s.files) {
                Some(i) => PrewarmAction::Check(i),
                None => PrewarmAction::Wait,
            }
        },
        None => PrewarmAction::Wait,
    }
}

/// Whether a file that a client failed to play is prepared: it has to be on
/// disk, and its torrent not known to be incomplete.
pub fn prewarm_remux_file(path_known: bool, on_disk: bool, snapshot_finished: Option<bool>) -> (r: bool)
    ensures
        r == (path_known && on_disk && snapshot_finished != Some(false)),
{
    let incomplete = match snapshot_finished {
        Some(f) => !f,
        None => false,
    };
    path_known && on_disk && !incomplete
}

/// The TMDB entry whose running time a file is checked against: that of its
/// collection, unless it was checked before.
pub fn tmdb_to_verify(verified: bool, collection_tmdb_id: Option<i64>) -> (r: Option<u64>)
    ensures
        r == if verified {
            None
        } else {
            match collection_tmdb_id {
                Some(id) => if id > 0 {
                    Some(id as u64)
                } else {
                    None
                },
                None => None,
            }
        },
{
    if verified {
        return None;
    }
    match collection_tmdb_id {
        Some(id) => {
            if id > 0 {
                Some(id as u64)
            } else {
                None
            }
        },
        None => None,
    }
}

// ---------------------------------------------------------------------------
// Playing
// ---------------------------------------------------------------------------

/// Whether a file is streamed from disk: it is complete and there.
pub fn streams_from_disk(finished: bool, path_known: bool, on_disk: bool) -> (r: bool)
    ensures
        r == (finished && path_known && on_disk),
{
    finished && path_known && on_disk
}

/// Whether a file of a prepared variant can be served. `stamped` tells
/// whether the database has the torrent as complete.
pub fn play_asset(
    in_database: bool,
    file: Result<(), EngineError>,
    stamped: bool,
    snapshot_finished: Option<bool>,
    on_disk: bool,
    shown_path: &str,
) -> (r: Result<(), ApiError>)
    ensures
        if !in_database {
            r matches Err(e) && e@ == Failure::NotFound
        } else if file is Err {
            r matches Err(e) && e@ == engine_failure(file->Err_0)
        } else if !stamped && snapshot_finished == Some(false) {
            r matches Err(e) && e@ == Failure::BadRequest(
                "torrent still downloading — wait until it's complete to play"@,
            )
        } else if !on_disk {
            r matches Err(e) && e@ == Failure::BadRequest("file not on disk: "@ + shown_path@)
        } else {
            r is Ok
        },
{
    if !in_database {
        return Err(ApiError::NotFound);
    }
    match file {
        Err(e) => {
            return Err(map_engine_err(e));
        },
        Ok(_) => {},
    }
    let incomplete = match snapshot_finished {
        Some(f) => !f,
        None => false,
    };
    if !stamped && incomplete {
        return Err(
            api_error::bad_request("torrent still downloading — wait until it's complete to play"),
        );
    }
    if !on_disk {
        return Err(ApiError::BadRequest(api_error::prefixed("file not on disk: ", shown_path)));
    }
    Ok(())
}

/// The file of a variant that starts its build.
pub fn is_master_playlist(asset: &str) -> (r: bool)
    ensures
        r == (asset@ == "master.m3u8"@),
{
    text::same_text(asset, "master.m3u8")
}

/// Whether a file of a variant exists under a proper name.
pub fn asset_outcome(valid_name: bool, present: bool) -> (r: Result<(), ApiError>)
    ensures
        if !valid_name {
            r matches Err(e) && e@ == Failure::BadRequest("invalid asset name"@)
        } else if !present {
            r matches Err(e) && e@ == Failure::NotFound
        } else {
            r is Ok
        },
{
    if !valid_name {
        Err(api_error::bad_request("invalid asset name"))
    } else if !present {
        Err(ApiError::NotFound)
    } else {
        Ok(())
    }
}

/// How a subtitle track is served.
#[derive(Debug, Clone, Copy, PartialEq, Eq, Structural)]
pub enum SubtitlePlan {
    /// From the cache, for a day.
    Cached,
    /// Extracted anew, and kept if the file is complete.
    Extract { keep: bool },
}

/// How a subtitle track is served: from the cache only once the torrent is
/// complete and the marker of a complete extraction stands next to the track.
pub fn serve_subtitle(
    on_disk: bool,
    finished: bool,
    cached: bool,
    marked: bool,
) -> (r: Result<SubtitlePlan, ApiError>)
    ensures
        if !on_disk {
            r matches Err(e) && e@ == Failure::BadRequest("file not yet on disk"@)
        } else if finished && cached && marked {
            r == Ok::<SubtitlePlan, ApiError>(SubtitlePlan::Cached)
        } else {
            r == Ok::<SubtitlePlan, ApiError>(SubtitlePlan::Extract { keep: finished })
        },
{
    if !on_disk {
        Err(api_error::bad_request("file not yet on disk"))
    } else if finished && cached && marked {
        Ok(SubtitlePlan::Cached)
    } else {
        Ok(SubtitlePlan::Extract { keep: finished })
    }
}

/// How long a client may keep a subtitle track.
pub fn subtitle_cache_control(plan: SubtitlePlan) -> (r: &'static str)
    ensures
        r@ == match plan {
            SubtitlePlan::Cached => "public, max-age=86400"@,
            SubtitlePlan::Extract { .. } => "no-store"@,
        },
{
    match plan {
        SubtitlePlan::Cached => "public, max-age=86400",
        SubtitlePlan::Extract { .. } => "no-store",
    }
}

// ---------------------------------------------------------------------------
// Laws
// ---------------------------------------------------------------------------

/// An infohash is one of hexadecimal digits alone, in either case; it comes
/// back in lower case.
pub proof fn infohash_is_hexadecimal(infohash: &str, lower: String, r: Result<String, ApiError>)
    requires
        call_ensures(text::to_ascii_lowercase, (infohash,), lower),
        call_ensures(checked_infohash, (infohash,), r),
    ensures
        r is Ok == forall|i: int|
            0 <= i < infohash@.len() ==> ('0' <= #[trigger] infohash@[i] <= '9') || ('a'
                <= infohash@[i] <= 'f') || ('A' <= infohash@[i] <= 'F'),
        r matches Ok(s) ==> s@ == lower@,
        r matches Err(e) ==> e@ is BadRequest,
{
    let l = text::lowered(infohash@);
    assert forall|i: int| 0 <= i < l.len() implies text::is_hex_digit(#[trigger] l[i]) == (('0'
        <= infohash@[i] <= '9') || ('a' <= infohash@[i] <= 'f') || ('A' <= infohash@[i]
        <= 'F')) by {
        assert(l[i] == text::lower_char(infohash@[i]));
        assert('A' <= infohash@[i] <= 'Z' ==> l[i] as int == infohash@[i] as int + 32);
    }
    if all_hex(l) {
        assert forall|i: int| 0 <= i < infohash@.len() implies ('0' <= #[trigger] infohash@[i]
            <= '9') || ('a' <= infohash@[i] <= 'f') || ('A' <= infohash@[i] <= 'F') by {
            assert(text::is_hex_digit(l[i]));
        }
    } else {
        let i = choose|i: int| 0 <= i < l.len() && !text::is_hex_digit(l[i]);
        assert(!text::is_hex_digit(l[i]));
        assert(infohash@[i] == infohash@[i]);
    }
}

/// A file index is kept where it fits; the database gets the largest number for
/// what does not, a manifest an error.
pub proof fn index_is_kept_where_it_fits(
    idx: usize,
    stored: i64,
    told: Result<u32, ApiError>,
)
    requires
        call_ensures(file_idx_to_i64, (idx,), stored),
        call_ensures(file_idx_to_u32, (idx,), told),
    ensures
        idx <= i64::MAX ==> stored == idx,
        idx > i64::MAX ==> stored == i64::MAX,
        told is Ok == (idx <= u32::MAX),
        told matches Ok(n) ==> n == idx,
{
}

/// What the engine does not know is not found; whatever else fails in it is an
/// internal error, in its own words.
pub proof fn unknown_to_the_engine_is_not_found(e: EngineError, r: ApiError)
    requires
        call_ensures(map_engine_err, (e,), r),
    ensures
        e is Other == r@ is Internal,
        !(e is Other) ==> r@ is NotFound,
        e is Other ==> r@->Internal_0 == e->Other_0@,
{
}

/// A failed look into a file is worth another try exactly while the torrent is
/// being downloaded and the message is of one that a missing part gives; the
/// message is kept in either case.
pub proof fn missing_part_is_worth_another_try(
    msg: &str,
    finished: bool,
    a: bool,
    b: bool,
    c: bool,
    d: bool,
    r: ApiError,
)
    requires
        call_ensures(text::contains_text, (msg, "file not yet on disk"), a),
        call_ensures(text::contains_text, (msg, "EBML header parsing failed"), b),
        call_ensures(text::contains_text, (msg, "Invalid data found when processing input"), c),
        call_ensures(text::contains_text, (msg, "invalid as first byte"), d),
        call_ensures(map_probe_err, (msg, finished), r),
    ensures
        r@ is BadRequest == (!finished && (a || b || c || d)),
        r@ is Internal == !(r@ is BadRequest),
        r@ is Internal ==> r@->Internal_0 == "ffprobe: "@ + msg@,
        r@ is BadRequest ==> text::has_text(r@->BadRequest_0, msg@),
{
    if r@ is BadRequest {
        let h = "file not yet on disk: download in progress ("@;
        let m = r@->BadRequest_0;
        let n = h.len() as int;
        assert(m.subrange(n, n + msg@.len()) =~= msg@);
    }
}

/// A report is dropped exactly where it would set someone back who was well
/// into an unfinished file: it is near the start, was not a deliberate move and
/// does not tell the end. Every other is stored as it was made, for the file
/// that it was made for.
pub proof fn only_a_restart_is_dropped(
    infohash: &str,
    idx: usize,
    body: ProgressUpdate,
    near_start: bool,
    previous: Option<PreviousProgress>,
    hash: Result<String, ApiError>,
    stored: i64,
    r: Result<ProgressPlan, ApiError>,
)
    requires
        call_ensures(checked_infohash, (infohash,), hash),
        call_ensures(file_idx_to_i64, (idx,), stored),
        call_ensures(put_progress, (infohash, idx, body, near_start, previous), r),
    ensures
        r is Ok == hash is Ok,
        r matches Ok(p) ==> {
            &&& p.infohash@ == hash->Ok_0@
            &&& p.file_idx == stored
            &&& (p.record is None) == (near_start && !body.seek && !body.completed && previous
                is Some && previous->0.well_in && !previous->0.completed)
            &&& p.record matches Some(u) ==> {
                &&& u.infohash@ == hash->Ok_0@
                &&& u.file_idx == stored
                &&& u.position_bits == body.position_bits
                &&& u.duration_bits == body.duration_bits
                &&& u.audio_track_idx == body.audio_track_idx
                &&& u.subtitle_track_idx == body.subtitle_track_idx
                &&& u.completed == body.completed
            }
            &&& p.presence is Leave == body.completed
            &&& !body.completed ==> (p.presence is Paused == (body.playing is Some
                && !body.playing->0))
        },
{
}

/// A release is dead where its details tell that nobody shares it. One that
/// somebody shares, or of which no number is told, is alive.
pub proof fn nobody_shares_the_dead(details: &TorrentDetails, r: bool, unknown: bool)
    requires
        call_ensures(is_dead, (Some(details),), r),
        call_ensures(is_dead, (None::<&TorrentDetails>,), unknown),
    ensures
        details.seeders is Some && details.seeders->0 >= 1 ==> !r,
        details.seeders is None ==> !r,
        details.seeders is Some && details.seeders->0 == 0 ==> r,
        !unknown,
{
}

/// With a known provider a release is refused exactly where its details tell
/// that nobody shares it, and then as dead; one that somebody shares, of which
/// no number is told or of which there are no details, is accepted. Nothing of
/// an unknown provider is.
pub proof fn living_releases_are_accepted(
    known: bool,
    provider: &str,
    details: Option<&TorrentDetails>,
    r: Result<(), ApiError>,
)
    requires
        call_ensures(ingest_guard, (known, provider, details), r),
    ensures
        !known ==> r is Err && r->Err_0@ is BadRequest,
        known && details is None ==> r is Ok,
        known && details is Some && details->0.seeders is None ==> r is Ok,
        known && details is Some && details->0.seeders is Some && details->0.seeders->0 >= 1
            ==> r is Ok,
        known && details is Some && details->0.seeders is Some && details->0.seeders->0 == 0
            ==> r is Err && r->Err_0@ is DeadTorrent,
{
}

/// What a download link gives is a magnet link where it is text that starts
/// with `magnet:`, without the white space around it; everything else is kept
/// byte for byte as a torrent file.
pub proof fn magnet_links_are_recognised(bytes: Vec<u8>, r: TorrentSource)
    requires
        call_ensures(release_of_bytes, (bytes,), r),
    ensures
        r is Magnet == (valid_utf8(bytes@) && bytes@.len() >= 7 && bytes@[0] == 'm' as u8
            && bytes@[1] == 'a' as u8 && bytes@[2] == 'g' as u8 && bytes@[3] == 'n' as u8
            && bytes@[4] == 'e' as u8 && bytes@[5] == 't' as u8 && bytes@[6] == ':' as u8),
        r matches TorrentSource::Magnet(m) ==> m@ == text::trimmed(decode_utf8(bytes@)),
        r matches TorrentSource::TorrentFile(b) ==> b == bytes,
{
    let p = seq![109u8, 97u8, 103u8, 110u8, 101u8, 116u8, 58u8];
    if is_magnet(bytes@) {
        assert(p[0] == bytes@[0] && p[1] == bytes@[1] && p[2] == bytes@[2] && p[3] == bytes@[3]
            && p[4] == bytes@[4] && p[5] == bytes@[5] && p[6] == bytes@[6]);
    }
    if bytes@.len() >= 7 && bytes@[0] == 109 && bytes@[1] == 97 && bytes@[2] == 103 && bytes@[3]
        == 110 && bytes@[4] == 101 && bytes@[5] == 116 && bytes@[6] == 58 {
        assert(p =~= bytes@.subrange(0, 7));
    }
}

/// A stored link is fetched before the provider is asked, the provider is asked
/// where there is none or it fails, and what either gives is the release.
pub proof fn link_comes_before_the_provider(
    url: String,
    bytes: Vec<u8>,
    source: TorrentSource,
    fault: Error,
    read: TorrentSource,
    a: ReleaseAction,
    b: ReleaseAction,
    c: ReleaseAction,
    d: ReleaseAction,
    e: ReleaseAction,
    f: ReleaseAction,
)
    requires
        call_ensures(resolve_release, (ReleaseEvent::Link(Some(url)),), a),
        call_ensures(resolve_release, (ReleaseEvent::Link(None),), b),
        call_ensures(resolve_release, (ReleaseEvent::FetchFailed,), c),
        call_ensures(resolve_release, (ReleaseEvent::Fetched(bytes),), d),
        call_ensures(resolve_release, (ReleaseEvent::Answered(source),), e),
        call_ensures(resolve_release, (ReleaseEvent::Refused(fault),), f),
        call_ensures(release_of_bytes, (bytes,), read),
    ensures
        a matches ReleaseAction::Fetch(u) && u == url,
        b is AskProvider && c is AskProvider,
        d matches ReleaseAction::Done(s) && (s is Magnet == read is Magnet) && (s
            is TorrentFile ==> s == read) && (s is Magnet ==> s->Magnet_0@ == read->Magnet_0@),
        e == ReleaseAction::Done(source),
        f is Fail,
        fault is InvalidInput || fault is NotFound || fault is Provider
            ==> f->Fail_0@ is BadRequest,
        !(fault is InvalidInput || fault is NotFound || fault is Provider)
            ==> f->Fail_0@ is Internal,
{
}

/// Only a torrent file can be looked into before it is added.
pub proof fn magnet_has_no_preview(source: TorrentSource, r: Result<Vec<u8>, ApiError>)
    requires
        call_ensures(preview, (source,), r),
    ensures
        r is Ok == source is TorrentFile,
        r matches Ok(b) ==> b == source->TorrentFile_0,
{
}

/// What is stored of a torrent is what was told of it; one without a name gets
/// a placeholder.
pub proof fn record_keeps_what_was_told(
    infohash: String,
    name: Option<String>,
    size: u64,
    provider: String,
    external: String,
    r: IngestRecord,
)
    requires
        call_ensures(ingest_core, (infohash, name, size, provider, external), r),
    ensures
        r.infohash == infohash && r.total_size_bytes == size && r.source_provider == provider
            && r.source_external_id == external,
        name is Some ==> r.name@ == name->0@,
        name is None ==> r.name@ == "<unnamed>"@,
{
}

/// A torrent is shown only where the database has it and the engine knows it.
pub proof fn both_have_to_know_a_torrent(
    row: Option<TorrentRow>,
    known: bool,
    r: Result<TorrentView, ApiError>,
)
    requires
        call_ensures(get_one, (row, known), r),
    ensures
        r is Ok == (row is Some && known),
        r matches Ok(v) ==> v.id == row->0.id && v.infohash == row->0.infohash && v.tmdb_id
            == row->0.tmdb_id && v.collection_id == row->0.collection_id && v.added_by
            == row->0.added_by && v.added_at == row->0.added_at && v.last_played_at
            == row->0.last_played_at && v.source_provider == row->0.source_provider
            && v.source_external_id == row->0.source_external_id,
        r matches Err(e) ==> e@ is NotFound,
{
}

proof fn lemma_file_at(files: Seq<FileEntry>, idx: usize, from: int)
    requires
        0 <= from,
    ensures
        match file_at(files, idx, from) {
            Some(f) => exists|i: int|
                from <= i < files.len() && #[trigger] files[i] == f && f.index == idx && forall|
                    j: int,
                |
                    from <= j < i ==> (#[trigger] files[j]).index != idx,
            None => forall|j: int| from <= j < files.len() ==> (#[trigger] files[j]).index != idx,
        },
    decreases files.len() - from,
{
    if from < files.len() {
        if files[from].index == idx {
            assert(files[from] == file_at(files, idx, from)->0);
        } else {
            lemma_file_at(files, idx, from + 1);
        }
    }
}

/// A file is found by its index, and only an index that none has is not.
pub proof fn file_is_found_by_its_index(
    files: &Vec<FileEntry>,
    idx: usize,
    r: Result<usize, ApiError>,
)
    requires
        call_ensures(find_file, (files, idx), r),
    ensures
        match r {
            Ok(i) => i < files@.len() && files@[i as int].index == idx,
            Err(e) => e@ is NotFound && forall|j: int|
                0 <= j < files@.len() ==> (#[trigger] files@[j]).index != idx,
        },
{
    lemma_file_at(files@, idx, 0);
}

/// Of an incomplete file the first 64 KiB and the last MiB are fetched, of a
/// shorter one from its start; nothing of a complete one is.
pub proof fn head_and_tail_are_fetched(finished: bool, size: u64, r: Option<PrefetchPlan>)
    requires
        call_ensures(prefetch_plan, (finished, size), r),
    ensures
        r is None == finished,
        r matches Some(p) ==> p.header_count == 64 * 1024 && p.tail_count == 1024 * 1024 && (size
            >= 1024 * 1024 ==> p.tail_start + p.tail_count == size) && (size < 1024 * 1024
            ==> p.tail_start == 0),
{
}

/// A torrent is complete where either the database or the engine says so.
pub proof fn either_tells_completion(stamped: bool, snapshot: Option<bool>, r: bool)
    requires
        call_ensures(torrent_finished, (stamped, snapshot), r),
    ensures
        stamped ==> r,
        snapshot is Some && snapshot->0 ==> r,
        !stamped && (snapshot is None || !snapshot->0) ==> !r,
{
}

/// A file is reported as stalled exactly where none of it is there, its torrent
/// is incomplete by both accounts, and neither peers nor bytes are coming.
/// Otherwise it can be looked into as soon as it is on disk.
pub proof fn stalled_means_nothing_is_coming(
    finished: bool,
    header_bytes: u64,
    swarm: Option<Swarm>,
    on_disk: bool,
    path: &str,
    r: Result<(), ApiError>,
)
    requires
        call_ensures(probe_file, (finished, header_bytes, swarm, on_disk, path), r),
    ensures
        (r is Err && r->Err_0@ is Conflict) == (!finished && header_bytes == 0 && swarm is Some
            && !swarm->0.finished && swarm->0.peers == 0 && swarm->0.download_speed_bps == 0),
        r is Ok ==> on_disk,
        r is Err && !(r->Err_0@ is Conflict) ==> !on_disk && r->Err_0@ is BadRequest,
        on_disk && (finished || header_bytes > 0 || swarm is None || swarm->0.peers > 0
            || swarm->0.download_speed_bps > 0) ==> r is Ok,
{
}

/// A manifest is made of a file that the torrent has, of a torrent that the
/// database and the engine both know, under an infohash that is one.
pub proof fn manifest_is_of_a_known_file(
    infohash: &str,
    idx: usize,
    in_database: bool,
    files: Option<&Vec<FileEntry>>,
    hash: Result<String, ApiError>,
    r: Result<ManifestRequest, ApiError>,
)
    requires
        call_ensures(checked_infohash, (infohash,), hash),
        call_ensures(manifest_request, (infohash, idx, in_database, files), r),
    ensures
        r is Ok == (hash is Ok && in_database && files is Some && exists|i: int|
            0 <= i < files->0@.len() && (#[trigger] files->0@[i]).index == idx),
        r matches Ok(m) ==> m.infohash@ == hash->Ok_0@ && m.position < files->0@.len()
            && files->0@[m.position as int].index == idx,
        r is Err ==> (r->Err_0@ is BadRequest == hash is Err) && (r->Err_0@ is NotFound == hash
            is Ok),
{
    if files is Some {
        lemma_file_at(files->0@, idx, 0);
    }
}

/// A manifest tells of no more complete bytes than the file has, and of all
/// that are complete.
pub proof fn no_more_is_complete_than_there_is(
    infohash: String,
    idx: usize,
    file: &FileEntry,
    progress: u64,
    r: Result<ManifestInputs, ApiError>,
)
    requires
        call_ensures(manifest_json, (infohash, idx, file, progress), r),
    ensures
        r is Ok == (idx <= u32::MAX),
        r matches Ok(m) ==> m.bytes_complete <= m.size_bytes && m.bytes_complete <= progress && (
        m.bytes_complete == m.size_bytes || m.bytes_complete == progress) && m.size_bytes
            == file.size_bytes && m.filename == file.path && m.file_idx == idx && m.infohash
            == infohash,
{
}

/// What is fetched ahead lies between 8 and 256 MiB, is what thirty seconds
/// take where that lies between, grows with it, and is 64 MiB where that is
/// unknown.
pub proof fn window_follows_the_rate(n: u64, r: u64, unknown: u64)
    requires
        call_ensures(playhead_window_bytes, (Some(n),), r),
        call_ensures(playhead_window_bytes, (None::<u64>,), unknown),
    ensures
        8 * 1024 * 1024 <= r <= 256 * 1024 * 1024,
        8 * 1024 * 1024 <= n <= 256 * 1024 * 1024 ==> r == n,
        n < 8 * 1024 * 1024 ==> r == 8 * 1024 * 1024,
        n > 256 * 1024 * 1024 ==> r == 256 * 1024 * 1024,
        unknown == 64 * 1024 * 1024,
{
}

/// A torrent is waited for while it is incomplete and until it was looked at
/// 900 times; once it is complete, a video of it is checked than which none is
/// larger.
pub proof fn largest_video_is_prepared(tries: u32, s: DownloadState, r: PrewarmAction, i: int)
    requires
        call_ensures(prewarm_default_remux, (tries, Some(s)), r),
    ensures
        r is GiveUp == (tries >= 900),
        tries < 900 && !s.finished ==> r is Wait,
        r is Check ==> s.finished,
        tries < 900 && s.finished && 0 <= i < s.files@.len() && grab_flow::is_video(
            s.files@[i].path@,
        ) ==> exists|k: int|
            0 <= k < s.files@.len() && r == PrewarmAction::Check((#[trigger] s.files@[k]).index)
                && grab_flow::is_video(s.files@[k].path@) && s.files@[k].size_bytes
                >= s.files@[i].size_bytes,
{
    let n = s.files@.len() as int;
    lemma_largest_is_a_file(s.files@, n);
    if 0 <= i < n && grab_flow::is_video(s.files@[i].path@) {
        grab_flow::largest_video_is_largest(s.files@, n, i);
    }
}

proof fn lemma_largest_is_a_file(files: Seq<FileEntry>, n: int)
    requires
        0 <= n <= files.len(),
    ensures
        grab_flow::largest_video(files, n) matches Some(f) ==> exists|k: int|
            0 <= k < n && #[trigger] files[k] == f,
    decreases n,
{
    if n > 0 {
        lemma_largest_is_a_file(files, n - 1);
        assert(files[n - 1] == files[n - 1]);
    }
}

/// A file is prepared where it is known and on disk and its torrent is not
/// known to be incomplete; it is streamed from disk only where the torrent is
/// known to be complete.
pub proof fn preparing_asks_less_than_streaming(
    path_known: bool,
    on_disk: bool,
    snapshot: Option<bool>,
    finished: bool,
    prepared: bool,
    streamed: bool,
)
    requires
        call_ensures(prewarm_remux_file, (path_known, on_disk, snapshot), prepared),
        call_ensures(streams_from_disk, (finished, path_known, on_disk), streamed),
    ensures
        prepared ==> path_known && on_disk,
        streamed ==> path_known && on_disk && finished,
        path_known && on_disk && finished ==> streamed,
        path_known && on_disk && snapshot is None ==> prepared,
        snapshot is Some && path_known && on_disk ==> prepared == snapshot->0,
{
}

/// A running time is checked once, against the entry of the collection where it
/// has a positive number.
pub proof fn running_time_is_checked_once(verified: bool, id: Option<i64>, r: Option<u64>)
    requires
        call_ensures(tmdb_to_verify, (verified, id), r),
    ensures
        verified ==> r is None,
        r is Some == (!verified && id is Some && id->0 >= 1),
        r is Some ==> r->0 == id->0,
{
}

/// A prepared file is served exactly where the torrent is in the database, the
/// engine has the file, nothing says that the torrent is incomplete, and it is
/// on disk; what is missing decides the error, in that order.
pub proof fn prepared_file_is_served(
    in_database: bool,
    file: Result<(), EngineError>,
    stamped: bool,
    snapshot: Option<bool>,
    on_disk: bool,
    path: &str,
    r: Result<(), ApiError>,
)
    requires
        call_ensures(play_asset, (in_database, file, stamped, snapshot, on_disk, path), r),
    ensures
        r is Ok == (in_database && file is Ok && on_disk && (stamped || snapshot is None
            || snapshot->0)),
        !in_database ==> r->Err_0@ is NotFound,
        in_database && file is Err && file->Err_0 is Other ==> r->Err_0@ is Internal,
        in_database && file is Err && !(file->Err_0 is Other) ==> r->Err_0@ is NotFound,
        in_database && file is Ok && r is Err ==> r->Err_0@ is BadRequest,
{
}

/// The build of a variant starts with its master playlist alone.
pub proof fn master_playlist_starts_the_build(asset: &str, r: bool)
    requires
        call_ensures(is_master_playlist, (asset,), r),
    ensures
        r <==> asset@ == "master.m3u8"@,
{
}

/// A file of a variant is served where its name is proper and it is there; a
/// name that is not is refused before that is looked at.
pub proof fn improper_names_are_refused(valid: bool, present: bool, r: Result<(), ApiError>)
    requires
        call_ensures(asset_outcome, (valid, present), r),
    ensures
        r is Ok == (valid && present),
        !valid ==> r->Err_0@ is BadRequest,
        valid && !present ==> r->Err_0@ is NotFound,
{
}

/// A subtitle track comes out of the cache only for a complete torrent whose
/// track was marked as complete; otherwise it is extracted, and kept exactly
/// where the torrent is complete. What comes out of the cache may be kept by
/// clients for a day, what is extracted not at all.
pub proof fn half_a_track_is_never_kept(
    on_disk: bool,
    finished: bool,
    cached: bool,
    marked: bool,
    plan: SubtitlePlan,
    words: &'static str,
    r: Result<SubtitlePlan, ApiError>,
)
    requires
        call_ensures(serve_subtitle, (on_disk, finished, cached, marked), r),
        call_ensures(subtitle_cache_control, (plan,), words),
    ensures
        r is Ok == on_disk,
        r matches Ok(p) ==> (p is Cached == (finished && cached && marked)) && (p is Extract
            ==> p->keep == finished),
        plan is Cached ==> words@ == "public, max-age=86400"@,
        plan is Extract ==> words@ == "no-store"@,
{
}

/// A provider that does not have what was asked for, or fails, makes the
/// request a bad one, in its own words; a request that was wrong from the start
/// says why. Everything else is a fault of this service.
pub proof fn providers_failures_are_the_requests(e: Error, m: String, r: ApiError)
    requires
        call_ensures(Error::message, (&e,), m),
        call_ensures(map_provider_err, (e,), r),
    ensures
        e is NotFound ==> r@ == Failure::BadRequest("provider: "@ + e->NotFound_0@),
        e is Provider ==> r@ == Failure::BadRequest("provider: "@ + e->Provider_0@),
        e is InvalidInput ==> r@ == Failure::BadRequest(e->InvalidInput_0@),
        r@ is BadRequest || r@ is Internal,
        r@ is Internal <==> e is Unauthorized || e is Forbidden || e is Conflict
            || e is ProviderRefused || e is Internal,
        r@ is Internal ==> r@->Internal_0 == m@,
{
}

/// A provider that is not known is named in the refusal.
pub proof fn unknown_provider_is_named(id: &str, r: ApiError)
    requires
        call_ensures(unknown_provider, (id,), r),
    ensures
        r@ is BadRequest && text::has_text(r@->BadRequest_0, id@),
{
    let head = "unknown provider `"@;
    let m = r@->BadRequest_0;
    assert(m.subrange(head.len() as int, head.len() as int + id@.len()) =~= id@);
}

} // verus!
