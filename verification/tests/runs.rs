use gdrive_search::drive_file::{DriveFile, RemoteFile};
use gdrive_search::drive_files::DriveFiles;
use gdrive_search::listing::{ListRequest, Progress, RemotePage};
use gdrive_search::sync::{
    confirmed_sync_state_bytes, plan_sync, plan_sync_now, recorded_sync_state, sync_state_bytes,
    sync_state_bytes_now, CacheError, CacheRead, Pending, SyncStep,
};
use gdrive_search::timestamp::Timestamp;

const MARCH_FIRST: i64 = 1_646_125_200;

fn utc(secs: i64) -> Timestamp {
    Timestamp { secs, nanos: 0, offset: 0 }
}

fn record(id: &str, name: &str, secs: i64) -> DriveFile {
    let link = format!("https://drive.example/{}", id);
    DriveFile::new(id.to_string(), name.to_string(), utc(secs), link)
}

fn remote_file(id: &str, name: &str, modified_time: &str) -> RemoteFile {
    RemoteFile {
        id: Some(id.to_string()),
        name: Some(name.to_string()),
        modified_time: Some(modified_time.to_string()),
        web_view_link: Some(format!("https://drive.example/{}", id)),
    }
}

fn remote_page(first: usize, count: usize, next: Option<&str>) -> RemotePage {
    let mut files = Vec::new();
    for i in first..first + count {
        let (id, name) = (format!("id-{}", i), format!("file {}", i));
        files.push(remote_file(&id, &name, "2022-03-01T09:00:00Z"));
    }
    RemotePage { files: Some(files), next_page_token: next.map(|t| t.to_string()) }
}

fn request_with(q: Option<&str>, page_token: Option<&str>) -> ListRequest {
    ListRequest {
        supports_all_drives: true,
        spaces: "drive",
        page_size: 1000,
        include_items_from_all_drives: true,
        order_by: "modifiedTime desc",
        fields: "nextPageToken, files(id, webViewLink, name, modifiedTime)",
        q: q.map(|s| s.to_string()),
        page_token: page_token.map(|s| s.to_string()),
    }
}

fn done(progress: Progress) -> DriveFiles {
    match progress {
        Progress::Done(files) => files,
        Progress::Call(request, _) => panic!("the listing goes on with {:?}", request),
    }
}

fn pending_of(step: SyncStep) -> Pending {
    match step {
        SyncStep::LoadCache(pending) => pending,
        other => panic!("the cache was not asked for: {:?}", other),
    }
}

#[test]
fn without_an_earlier_sync_everything_is_listed() {
    match plan_sync(None, utc(MARCH_FIRST), 30) {
        SyncStep::Fetch(listing) => {
            assert_eq!(listing.len(), 0);
            assert_eq!(listing.request(), Some(request_with(None, None)));
        }
        other => panic!("no fetch: {:?}", other),
    }
}

#[test]
fn a_sync_as_old_as_the_window_is_stale() {
    let last = utc(MARCH_FIRST);
    let step = plan_sync(Some(last), utc(MARCH_FIRST + 30 * 60), 30);
    assert_eq!(pending_of(step), Pending::Refresh(last));
}

#[test]
fn a_sync_just_younger_than_the_window_is_fresh() {
    let last = utc(MARCH_FIRST);
    let now = Timestamp { secs: MARCH_FIRST + 30 * 60 - 1, nanos: 999_999_999, offset: 0 };
    assert_eq!(pending_of(plan_sync(Some(last), now, 30)), Pending::Reuse);
}

#[test]
fn the_window_is_a_parameter() {
    let last = utc(MARCH_FIRST);
    let now = utc(MARCH_FIRST + 90);
    assert_eq!(pending_of(plan_sync(Some(last), now, 1)), Pending::Refresh(last));
    assert_eq!(pending_of(plan_sync(Some(last), now, 2)), Pending::Reuse);
}

#[test]
fn a_sync_in_the_future_is_fresh() {
    let last = utc(MARCH_FIRST + 1_000);
    assert_eq!(pending_of(plan_sync(Some(last), utc(MARCH_FIRST), 1)), Pending::Reuse);
}

#[test]
fn a_fresh_cache_is_used_as_it_is() {
    let last = utc(MARCH_FIRST);
    let now = utc(MARCH_FIRST + 10 * 60);
    let pending = pending_of(plan_sync(Some(last), now, 30));
    assert_eq!(pending, Pending::Reuse);
    let cached = vec![record("a", "a", 1), record("b", "b", 2), record("c", "c", 3)];
    match pending.resume(CacheRead::Records(cached)).unwrap() {
        SyncStep::Ready(files) => {
            assert_eq!(
                files.into_files(),
                vec![record("a", "a", 1), record("b", "b", 2), record("c", "c", 3)]
            );
        }
        other => panic!("the cache was not used: {:?}", other),
    }
}

#[test]
fn a_stale_cache_is_brought_up_to_date() {
    let last = utc(MARCH_FIRST);
    let now = utc(MARCH_FIRST + 40 * 60);
    let pending = pending_of(plan_sync(Some(last), now, 30));
    assert_eq!(pending, Pending::Refresh(last));
    let cached = vec![record("X", "old name", 1), record("Y", "y", 2)];
    let listing = match pending.resume(CacheRead::Records(cached)).unwrap() {
        SyncStep::Fetch(listing) => listing,
        other => panic!("no fetch: {:?}", other),
    };
    assert_eq!(listing.len(), 2);
    assert_eq!(
        listing.request(),
        Some(request_with(Some("modifiedTime > '2022-03-01T09:00:00+00:00'"), None))
    );
    let page = RemotePage {
        files: Some(vec![remote_file("X", "new name", "2022-03-01T09:30:00Z")]),
        next_page_token: None,
    };
    let files = done(listing.fetch_files(Ok(page)).unwrap().proceed());
    assert_eq!(files.len(), 2);
    assert_eq!(files.files()[0], record("X", "new name", MARCH_FIRST + 30 * 60));
    assert_eq!(files.files()[1], record("Y", "y", 2));
}

#[test]
fn a_first_run_lists_two_pages_and_records_the_sync() {
    let stored: Option<&[u8]> = None;
    let last = DriveFiles::last_fetched(stored);
    assert_eq!(last, None);
    let mut listing = match plan_sync(last, utc(MARCH_FIRST), 30) {
        SyncStep::Fetch(listing) => listing,
        other => panic!("no fetch: {:?}", other),
    };
    assert_eq!(listing.request(), Some(request_with(None, None)));
    listing = listing.fetch_files(Ok(remote_page(0, 1000, Some("next")))).unwrap();
    assert_eq!(listing.request(), Some(request_with(None, Some("next"))));
    listing = listing.fetch_files(Ok(remote_page(1000, 42, None))).unwrap();
    let files = done(listing.proceed());
    assert_eq!(files.len(), 1042);
    let done = utc(MARCH_FIRST + 5);
    let bytes = sync_state_bytes(done).unwrap();
    assert_eq!(DriveFiles::last_fetched(Some(bytes.as_slice())), Some(done));
}

#[test]
fn a_corrupt_cache_counts_as_none() {
    for pending in [Pending::Reuse, Pending::Refresh(utc(MARCH_FIRST))] {
        match pending.resume(CacheRead::Corrupt).unwrap() {
            SyncStep::Fetch(listing) => {
                assert_eq!(listing.len(), 0);
                assert_eq!(listing.request(), Some(request_with(None, None)));
            }
            other => panic!("no fetch: {:?}", other),
        }
    }
}

#[test]
fn a_missing_cache_ends_the_run() {
    assert_eq!(Pending::Reuse.resume(CacheRead::Missing).unwrap_err(), CacheError::NotFound);
    assert_eq!(
        Pending::Refresh(utc(1)).resume(CacheRead::Missing).unwrap_err(),
        CacheError::NotFound
    );
}

#[test]
fn a_cache_that_cannot_be_read_ends_the_run() {
    assert_eq!(Pending::Reuse.resume(CacheRead::Unreadable).unwrap_err(), CacheError::Io);
    assert_eq!(Pending::Refresh(utc(1)).resume(CacheRead::Unreadable).unwrap_err(), CacheError::Io);
}

#[test]
fn loading_says_why_there_is_no_set() {
    assert_eq!(DriveFiles::load_from_disk(CacheRead::Missing).unwrap_err(), CacheError::NotFound);
    assert_eq!(DriveFiles::load_from_disk(CacheRead::Unreadable).unwrap_err(), CacheError::Io);
    assert_eq!(
        DriveFiles::load_from_disk(CacheRead::Corrupt).unwrap_err(),
        CacheError::CorruptData
    );
}

#[test]
fn loading_merges_the_stored_records() {
    let stored = vec![record("a", "first", 1), record("b", "b", 2), record("a", "second", 3)];
    let files = DriveFiles::load_from_disk(CacheRead::Records(stored)).unwrap();
    assert_eq!(files.into_files(), vec![record("a", "second", 3), record("b", "b", 2)]);
}

#[test]
fn the_stored_time_is_read_as_utc() {
    let utc_text: &[u8] = b"\"2022-03-01T09:00:00+00:00\"";
    assert_eq!(DriveFiles::last_fetched(Some(utc_text)), Some(utc(MARCH_FIRST)));
    let zoned: &[u8] = b"\"2022-03-01T10:00:00.5+01:00\"";
    assert_eq!(
        DriveFiles::last_fetched(Some(zoned)),
        Some(Timestamp { secs: MARCH_FIRST, nanos: 500_000_000, offset: 0 })
    );
}

#[test]
fn bytes_that_are_no_time_count_as_no_sync() {
    let cases: [&[u8]; 7] = [
        b"",
        b"garbage",
        b"\"yesterday\"",
        b"12",
        b"{\"at\": 1}",
        b"\"2022-03-01T09:00:00+00:00",
        &[0xff, 0xfe],
    ];
    for bytes in cases.iter() {
        assert_eq!(DriveFiles::last_fetched(Some(*bytes)), None);
    }
}

#[test]
fn a_stored_null_is_no_sync() {
    let null: &[u8] = b"null";
    assert_eq!(DriveFiles::last_fetched(Some(null)), None);
}

#[test]
fn nothing_stored_is_no_sync() {
    assert_eq!(DriveFiles::last_fetched(None), None);
}

#[test]
fn what_was_read_decides_the_last_sync() {
    assert_eq!(recorded_sync_state(None), None);
    assert_eq!(recorded_sync_state(Some(None)), None);
    assert_eq!(recorded_sync_state(Some(Some(utc(5)))), Some(utc(5)));
}

#[test]
fn the_sync_is_recorded_as_a_json_string() {
    assert_eq!(
        sync_state_bytes(utc(MARCH_FIRST)),
        Some(b"\"2022-03-01T09:00:00+00:00\"".to_vec())
    );
    assert_eq!(
        sync_state_bytes(Timestamp { secs: MARCH_FIRST, nanos: 123_456_789, offset: 0 }),
        Some(b"\"2022-03-01T09:00:00.123456789+00:00\"".to_vec())
    );
}

#[test]
fn a_time_that_cannot_be_written_is_not_recorded() {
    assert_eq!(sync_state_bytes(Timestamp { secs: i64::MIN, nanos: 0, offset: 0 }), None);
    assert_eq!(sync_state_bytes(Timestamp { secs: 0, nanos: 0, offset: -86_400 }), None);
}

#[test]
fn a_recorded_sync_is_read_back() {
    let at = Timestamp { secs: MARCH_FIRST + 77, nanos: 1_000, offset: 0 };
    let bytes = sync_state_bytes(at).unwrap();
    assert_eq!(DriveFiles::last_fetched(Some(bytes.as_slice())), Some(at));
}

#[test]
fn the_record_of_now_is_a_time_of_today() {
    let bytes = sync_state_bytes_now().unwrap();
    let at = DriveFiles::last_fetched(Some(bytes.as_slice())).unwrap();
    assert!(at.secs > 1_600_000_000);
    assert!(at.nanos < 1_000_000_000);
    assert_eq!(at.offset, 0);
}

#[test]
fn a_run_that_starts_now_goes_by_the_clock() {
    match plan_sync_now(None, 30) {
        Some(SyncStep::Fetch(listing)) => {
            assert_eq!(listing.request(), Some(request_with(None, None)))
        }
        other => panic!("no fetch: {:?}", other),
    }
    let long_ago = utc(MARCH_FIRST);
    let stale = plan_sync_now(Some(long_ago), 30).unwrap();
    assert_eq!(pending_of(stale), Pending::Refresh(long_ago));
    let far_ahead = utc(253_402_300_799);
    let fresh = plan_sync_now(Some(far_ahead), 30).unwrap();
    assert_eq!(pending_of(fresh), Pending::Reuse);
}

#[test]
fn the_record_of_now_is_read_back_as_the_time_it_was_made_for() {
    let bytes = sync_state_bytes_now().unwrap();
    let read = DriveFiles::last_fetched(Some(bytes.as_slice())).unwrap();
    assert_eq!(sync_state_bytes(read), Some(bytes));
}

#[test]
fn a_confirmed_record_is_the_record_and_reads_back() {
    let at = Timestamp { secs: MARCH_FIRST + 5, nanos: 123_000_000, offset: 0 };
    let bytes = confirmed_sync_state_bytes(at).unwrap();
    assert_eq!(bytes, b"\"2022-03-01T09:00:05.123+00:00\"".to_vec());
    assert_eq!(DriveFiles::last_fetched(Some(bytes.as_slice())), Some(at));
}

#[test]
fn a_confirmed_record_reads_back_in_utc() {
    let at = Timestamp { secs: MARCH_FIRST, nanos: 0, offset: 3_600 };
    let bytes = confirmed_sync_state_bytes(at).unwrap();
    assert_eq!(bytes, b"\"2022-03-01T10:00:00+01:00\"".to_vec());
    assert_eq!(DriveFiles::last_fetched(Some(bytes.as_slice())), Some(utc(MARCH_FIRST)));
}

#[test]
fn a_leap_second_is_recorded_and_read_back() {
    let at = Timestamp { secs: 1_483_228_799, nanos: 1_500_000_000, offset: 0 };
    let bytes = confirmed_sync_state_bytes(at).unwrap();
    assert_eq!(bytes, b"\"2016-12-31T23:59:60.500+00:00\"".to_vec());
    assert_eq!(DriveFiles::last_fetched(Some(bytes.as_slice())), Some(at));
}

#[test]
fn no_record_is_confirmed_for_a_time_that_cannot_be_written() {
    assert_eq!(confirmed_sync_state_bytes(Timestamp { secs: i64::MAX, nanos: 0, offset: 0 }), None);
    assert_eq!(confirmed_sync_state_bytes(Timestamp { secs: 0, nanos: 0, offset: 86_400 }), None);
}

#[test]
fn the_first_step_without_a_sync_needs_no_clock() {
    for window in [i64::MIN, -1, 0, 1, 30, i64::MAX] {
        match plan_sync_now(None, window) {
            Some(SyncStep::Fetch(listing)) => {
                assert_eq!(listing.len(), 0);
                assert_eq!(listing.request(), Some(request_with(None, None)));
            }
            other => panic!("no fetch: {:?}", other),
        }
    }
}
