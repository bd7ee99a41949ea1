//! How a run goes: whether the set is taken from the cache as it is, brought
//! up to date, or listed anew, and what is written down once it is up to
//! date.

use crate::drive_file::{DriveFile, DriveFileView};
use crate::drive_files::{ids_unique, lemma_merged_all_new, merged_all, DriveFiles};
use crate::listing::{filter_for, CursorView, Listing, ListingView};
use crate::timestamp::{now, rfc3339_text, to_rfc3339, Timestamp};
use vstd::prelude::*;

verus! {

/// Why the cached set is not to be had.
#[derive(Clone, Copy, Debug, PartialEq, Eq, Structural)]
pub enum CacheError {
    /// There is no cache.
    NotFound,
    /// What is stored is no set of files.
    CorruptData,
    /// The cache is there and could not be read.
    Io,
}

/// What `CacheRead` stands for.
pub enum CacheReadView {
    Missing,
    Unreadable,
    Corrupt,
    Records(Seq<DriveFileView>),
}

/// What came of reading the cached set.
#[derive(Debug, PartialEq, Eq)]
pub enum CacheRead {
    /// There is no cache.
    Missing,
    /// The cache is there and could not be read.
    Unreadable,
    /// What is stored is no list of records.
    Corrupt,
    /// The records that are stored, in their order.
    Records(Vec<DriveFile>),
}

impl View for CacheRead {
    type V = CacheReadView;

    open spec fn view(&self) -> CacheReadView {
        match self {
            CacheRead::Missing => CacheReadView::Missing,
            CacheRead::Unreadable => CacheReadView::Unreadable,
            CacheRead::Corrupt => CacheReadView::Corrupt,
            CacheRead::Records(records) => CacheReadView::Records(records.deep_view()),
        }
    }
}

impl CacheReadView {
    /// The cached set: the stored records merged into the empty set in their
    /// order, so that no identifier occurs twice.
    pub open spec fn loaded(self) -> Result<Seq<DriveFileView>, CacheError> {
        match self {
            CacheReadView::Missing => Err(CacheError::NotFound),
            CacheReadView::Unreadable => Err(CacheError::Io),
            CacheReadView::Corrupt => Err(CacheError::CorruptData),
            CacheReadView::Records(records) => Ok(merged_all(Seq::empty(), records)),
        }
    }
}

/// The time of the last sync that `chrono` and `serde_json` read out of the
/// stored bytes: a JSON string that holds a date and time, or `null` for
/// none. The outer `None` stands for bytes that are neither.
pub uninterp spec fn stored_sync_state(bytes: Seq<u8>) -> Option<Option<Timestamp>>;

/// The bytes that `serde_json` writes for `text` as a JSON string.
pub uninterp spec fn json_string_bytes(text: Seq<char>) -> Option<Seq<u8>>;

/// Reads the stored time of the last sync with `serde_json::from_slice`, as
/// an optional `chrono::DateTime<Utc>`.
///
/// Trusted: the result is what the two crates make of the bytes, and nothing
/// is proved of it. The outer `None` stands for any error of the parser.
#[verifier::external_body]
pub(crate) fn decode_sync_state(bytes: &[u8]) -> (r: Option<Option<Timestamp>>)
    ensures
        r == stored_sync_state(bytes@),
{
    match serde_json::from_slice::<Option<chrono::DateTime<chrono::Utc>>>(bytes) {
        Ok(Some(at)) => {
            let zone = chrono::Offset::fix(at.offset());
            let (secs, nanos) = (at.timestamp(), at.timestamp_subsec_nanos());
            Some(Some(Timestamp { secs, nanos, offset: zone.local_minus_utc() }))
        },
        Ok(None) => Some(None),
        Err(_) => None,
    }
}

/// Writes `text` as a JSON string with `serde_json::to_vec`.
///
/// Trusted: the result is what `serde_json` writes, and nothing is proved of
/// it. `None` stands for any error of the writer.
#[verifier::external_body]
pub(crate) fn encode_json_string(text: &str) -> (r: Option<Vec<u8>>)
    ensures
        r.deep_view() == json_string_bytes(text@),
{
    match serde_json::to_vec(text) {
        Ok(bytes) => Some(bytes),
        Err(_) => None,
    }
}

/// The time of the last sync, given what was read out of the stored bytes:
/// bytes that were not understood count as no sync at all.
pub open spec fn recorded(decoded: Option<Option<Timestamp>>) -> Option<Timestamp> {
    match decoded {
        Some(at) => at,
        None => None,
    }
}

/// The time of the last sync, given what was read out of the stored bytes:
/// bytes that were not understood count as no sync at all.
pub fn recorded_sync_state(decoded: Option<Option<Timestamp>>) -> (at: Option<Timestamp>)
    ensures
        at == recorded(decoded),
{
    match decoded {
        Some(at) => at,
        None => None,
    }
}

/// The bytes that record a sync at `at`: its RFC 3339 text as a JSON string.
pub open spec fn sync_state_record(at: Timestamp) -> Option<Seq<u8>> {
    match rfc3339_text(at.secs, at.nanos, at.offset) {
        Some(text) => json_string_bytes(text),
        None => None,
    }
}

/// The bytes to store for a sync that was complete at `at`; none where `at`
/// cannot be written down.
pub fn sync_state_bytes(at: Timestamp) -> (bytes: Option<Vec<u8>>)
    ensures
        bytes.deep_view() == sync_state_record(at),
{
    match to_rfc3339(&at) {
        Some(text) => encode_json_string(text.as_str()),
        None => None,
    }
}

/// The bytes that record a sync at `at`, where they are read back as the
/// instant of `at`: the time that [`DriveFiles::last_fetched`] then gives is
/// `at` in UTC.
pub open spec fn confirmed_record(at: Timestamp) -> Option<Seq<u8>> {
    match sync_state_record(at) {
        Some(bytes) => if recorded(stored_sync_state(bytes)) == Some(at.in_utc()) {
            Some(bytes)
        } else {
            None
        },
        None => None,
    }
}

/// The bytes to store for a sync that was complete at `at`, handed out only
/// after they have been read back as the instant of `at`. None are handed
/// out where `at` cannot be written down, or is not read back.
pub fn confirmed_sync_state_bytes(at: Timestamp) -> (bytes: Option<Vec<u8>>)
    ensures
        bytes.deep_view() == confirmed_record(at),
        bytes matches Some(b) ==> recorded(stored_sync_state(b@)) == Some(at.in_utc()),
{
    let bytes = match sync_state_bytes(at) {
        Some(bytes) => bytes,
        None => return None,
    };
    assert(bytes.deep_view() =~= bytes@);
    let wanted = Timestamp { secs: at.secs, nanos: at.nanos, offset: 0 };
    match DriveFiles::last_fetched(Some(bytes.as_slice())) {
        Some(read) => if read == wanted {
            Some(bytes)
        } else {
            None
        },
        None => None,
    }
}

/// The bytes to store for a sync that is complete now: the record of the
/// time that the clock shows at this call. What is handed out has been read
/// back: [`DriveFiles::last_fetched`] gives that very time for it. None are
/// handed out where the clock cannot be read, or its time cannot be written
/// down or is not read back.
pub fn sync_state_bytes_now() -> (bytes: Option<Vec<u8>>)
    ensures
        bytes matches Some(b) ==> (exists|at: Timestamp|
            at.offset == 0 && #[trigger] sync_state_record(at) == Some(b@) && recorded(
                stored_sync_state(b@),
            ) == Some(at)),
{
    match now() {
        Some(at) => {
            let bytes = confirmed_sync_state_bytes(at);
            assert(at.in_utc() == at);
            bytes
        },
        None => None,
    }
}

impl DriveFiles {
    /// The cached set, given what came of reading it. Stored records are
    /// merged into the empty set in their order.
    pub fn load_from_disk(read: CacheRead) -> (r: Result<DriveFiles, CacheError>)
        ensures
            match r {
                Ok(files) => read@.loaded() == Ok::<Seq<DriveFileView>, CacheError>(files@),
                Err(e) => read@.loaded() == Err::<Seq<DriveFileView>, CacheError>(e),
            },
    {
        match read {
            CacheRead::Missing => Err(CacheError::NotFound),
            CacheRead::Unreadable => Err(CacheError::Io),
            CacheRead::Corrupt => Err(CacheError::CorruptData),
            CacheRead::Records(records) => Ok(DriveFiles::from_records(records)),
        }
    }

    /// The time of the last sync, given the stored bytes, if any are stored.
    /// Where nothing is stored, or what is stored is not understood, there
    /// has been no sync.
    pub fn last_fetched(stored: Option<&[u8]>) -> (at: Option<Timestamp>)
        ensures
            at == match stored {
                Some(bytes) => recorded(stored_sync_state(bytes@)),
                None => None,
            },
    {
        match stored {
            Some(bytes) => recorded_sync_state(decode_sync_state(bytes)),
            None => None,
        }
    }
}

/// Whether a sync at `last` is too old at `now`: at least `window_minutes`
/// minutes have passed.
pub open spec fn is_stale(last: Timestamp, now: Timestamp, window_minutes: i64) -> bool {
    now.nanos_since(last) >= window_minutes * 60_000_000_000
}

/// What the cache is wanted for.
#[derive(Clone, Copy, Debug, PartialEq, Eq, Structural)]
pub enum Pending {
    /// The cached set is to be brought up to date with the files modified
    /// after the given time.
    Refresh(Timestamp),
    /// The cached set is to be used as it is.
    Reuse,
}

/// What a [`SyncStep`] stands for.
pub enum SyncStepView {
    LoadCache(Pending),
    Fetch(ListingView),
    Ready(Seq<DriveFileView>),
}

/// What a run does next.
#[derive(Debug)]
pub enum SyncStep {
    /// Read the cached set and hand what came of it to [`Pending::resume`].
    LoadCache(Pending),
    /// List the remote files: take this listing to its end.
    Fetch(Listing),
    /// Use these files; nothing is fetched and nothing is written.
    Ready(DriveFiles),
}

impl View for SyncStep {
    type V = SyncStepView;

    open spec fn view(&self) -> SyncStepView {
        match self {
            SyncStep::LoadCache(pending) => SyncStepView::LoadCache(*pending),
            SyncStep::Fetch(listing) => SyncStepView::Fetch(listing@),
            SyncStep::Ready(files) => SyncStepView::Ready(files@),
        }
    }
}

/// The listing of all remote files into the empty set.
pub open spec fn full_listing() -> ListingView {
    ListingView { files: Seq::empty(), query: None, cursor: CursorView::Start }
}

/// The first step of a run. Without an earlier sync everything is listed
/// anew; after one, the cache is read, to be brought up to date where the
/// sync is too old, and to be used as it is where it is not.
pub open spec fn planned(
    last_fetched: Option<Timestamp>,
    now: Timestamp,
    window_minutes: i64,
) -> SyncStepView {
    match last_fetched {
        Some(last) => if is_stale(last, now, window_minutes) {
            SyncStepView::LoadCache(Pending::Refresh(last))
        } else {
            SyncStepView::LoadCache(Pending::Reuse)
        },
        None => SyncStepView::Fetch(full_listing()),
    }
}

impl Pending {
    /// The step after the cache was read. A cache that is corrupt counts as
    /// none: everything is listed anew. A cache that is missing or cannot be
    /// read ends the run.
    pub open spec fn resumed(self, read: CacheReadView) -> Result<SyncStepView, CacheError> {
        match read.loaded() {
            Ok(files) => Ok(
                match self {
                    Pending::Refresh(since) => SyncStepView::Fetch(
                        ListingView {
                            files,
                            query: filter_for(Some(since)),
                            cursor: CursorView::Start,
                        },
                    ),
                    Pending::Reuse => SyncStepView::Ready(files),
                },
            ),
            Err(CacheError::CorruptData) => Ok(SyncStepView::Fetch(full_listing())),
            Err(e) => Err(e),
        }
    }

    /// Goes on after the cache was read: see [`Pending::resumed`].
    pub fn resume(self, read: CacheRead) -> (r: Result<SyncStep, CacheError>)
        ensures
            match r {
                Ok(step) => self.resumed(read@) == Ok::<SyncStepView, CacheError>(step@),
                Err(e) => self.resumed(read@) == Err::<SyncStepView, CacheError>(e),
            },
    {
        match DriveFiles::load_from_disk(read) {
            Ok(files) => match self {
                Pending::Refresh(since) => Ok(
                    SyncStep::Fetch(files.update_from_gdrive(Some(since))),
                ),
                Pending::Reuse => Ok(SyncStep::Ready(files)),
            },
            Err(CacheError::CorruptData) => Ok(
                SyncStep::Fetch(DriveFiles::new().update_from_gdrive(None)),
            ),
            Err(e) => Err(e),
        }
    }
}

/// The first step of a run at `now`, after a last sync at `last_fetched`, if
/// there was one, with a cache that stays fresh for `window_minutes` minutes.
pub fn plan_sync(last_fetched: Option<Timestamp>, now: Timestamp, window_minutes: i64) -> (step:
    SyncStep)
    ensures
        step@ == planned(last_fetched, now, window_minutes),
{
    match last_fetched {
        Some(last) => if now.is_minutes_after(&last, window_minutes) {
            SyncStep::LoadCache(Pending::Refresh(last))
        } else {
            SyncStep::LoadCache(Pending::Reuse)
        },
        None => SyncStep::Fetch(DriveFiles::new().update_from_gdrive(None)),
    }
}

/// The first step of a run that starts now. Without an earlier sync that is
/// a listing of everything, and the clock is not looked at. After a sync it
/// is what [`plan_sync`] gives for the time that the clock shows: the cache
/// is read, for one purpose or the other. There is no step where the clock
/// cannot be read.
pub fn plan_sync_now(last_fetched: Option<Timestamp>, window_minutes: i64) -> (r: Option<SyncStep>)
    ensures
        last_fetched is None ==> (r matches Some(step) && step@ == SyncStepView::Fetch(
            full_listing(),
        )),
        r matches Some(step) ==> (exists|now: Timestamp|
            step@ == #[trigger] planned(last_fetched, now, window_minutes)),
        r matches Some(step) ==> (last_fetched matches Some(last) ==> (step@
            == SyncStepView::LoadCache(Pending::Refresh(last)) || step@ == SyncStepView::LoadCache(
            Pending::Reuse,
        ))),
{
    match last_fetched {
        Some(_) => match now() {
            Some(at) => Some(plan_sync(last_fetched, at, window_minutes)),
            None => None,
        },
        None => {
            let step = SyncStep::Fetch(DriveFiles::new().update_from_gdrive(None));
            assert(step@ == planned(
                last_fetched,
                Timestamp { secs: 0, nanos: 0, offset: 0 },
                window_minutes,
            ));
            Some(step)
        },
    }
}

/// A run without an earlier sync fetches from the remote listing. A run
/// after a sync, whose cache is read as a list of records, fetches if and
/// only if at least the window has passed since that sync, and else has the
/// cached set for its result: record for record where no identifier is
/// stored twice.
pub proof fn lemma_staleness_policy(
    last: Timestamp,
    now: Timestamp,
    window_minutes: i64,
    records: Seq<DriveFileView>,
)
    ensures
        planned(None, now, window_minutes) is Fetch,
        planned(Some(last), now, window_minutes) is LoadCache,
        now.nanos_since(last) >= window_minutes * 60_000_000_000 <==> planned(
            Some(last),
            now,
            window_minutes,
        ) == SyncStepView::LoadCache(Pending::Refresh(last)),
        now.nanos_since(last) < window_minutes * 60_000_000_000 <==> planned(
            Some(last),
            now,
            window_minutes,
        ) == SyncStepView::LoadCache(Pending::Reuse),
        planned(Some(last), now, window_minutes) matches SyncStepView::LoadCache(pending)
            && pending.resumed(CacheReadView::Records(records)) matches Ok(step) && (step is Fetch
            <==> now.nanos_since(last) >= window_minutes * 60_000_000_000) && (step is Ready
            <==> now.nanos_since(last) < window_minutes * 60_000_000_000),
        ids_unique(records) ==> Pending::Reuse.resumed(CacheReadView::Records(records)) == Ok::<
            SyncStepView,
            CacheError,
        >(SyncStepView::Ready(records)),
{
    if ids_unique(records) {
        assert(Seq::<DriveFileView>::empty() + records =~= records);
        lemma_merged_all_new(Seq::empty(), records);
    }
}

/// A cache that is corrupt is as good as none: whatever it was wanted for,
/// the run lists everything anew, as a run without an earlier sync does. And
/// stored bytes that are not understood as a time count as no sync.
pub proof fn lemma_corrupt_cache_is_no_cache(pending: Pending, now: Timestamp, window_minutes: i64)
    ensures
        pending.resumed(CacheReadView::Corrupt) == Ok::<SyncStepView, CacheError>(
            planned(None, now, window_minutes),
        ),
        recorded(None) is None,
{
}

} // verus!
