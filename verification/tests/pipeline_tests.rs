//! The cache's upsert, the batch validation, the polling machine, and
//! the retrieval front-end's replies.

use buildid_index::batch::{process_batch_rows, BatchError, BatchRow};
use buildid_index::cache::Cache;
use buildid_index::entry::Entry;
use buildid_index::poller::{PollStep, Poller};
use buildid_index::serve::{lookup_step, realise_reply, refuse_reply, section_reply, FileStep, HttpReply};

fn entry(
    buildid: &str,
    executable: Option<&str>,
    debuginfo: Option<&str>,
    source: Option<&str>,
) -> Entry {
    Entry {
        buildid: buildid.to_owned(),
        executable: executable.map(|s| s.to_owned()),
        debuginfo: debuginfo.map(|s| s.to_owned()),
        source: source.map(|s| s.to_owned()),
    }
}

#[test]
fn cache_merges_partial_entries_per_field() {
    let mut cache = Cache::open();
    // A debug tree scan learns only the debug info.
    cache.register(&entry(
        "0123abcd",
        None,
        Some("/nix/store/bbb-hello-debug/lib/debug/.build-id/01/23abcd.debug"),
        None,
    ));
    // The executable scan later learns the rest; its null fields must not
    // erase what is already known.
    cache.register(&entry(
        "0123abcd",
        Some("/nix/store/aaa-hello/bin/hello"),
        None,
        Some("/nix/store/ccc.drv"),
    ));
    assert_eq!(
        cache.get_executable("0123abcd"),
        Some("/nix/store/aaa-hello/bin/hello".to_owned())
    );
    assert_eq!(
        cache.get_debuginfo("0123abcd"),
        Some("/nix/store/bbb-hello-debug/lib/debug/.build-id/01/23abcd.debug".to_owned())
    );
    assert_eq!(cache.get_source("0123abcd"), Some("/nix/store/ccc.drv".to_owned()));
}

#[test]
fn cache_takes_the_last_non_null_value() {
    let mut cache = Cache::open();
    cache.register(&entry("deadbeef", Some("/nix/store/old/bin/x"), None, None));
    cache.register(&entry("deadbeef", Some("/nix/store/new/bin/x"), None, None));
    cache.register(&entry("deadbeef", None, None, None));
    assert_eq!(
        cache.get_executable("deadbeef"),
        Some("/nix/store/new/bin/x".to_owned())
    );
}

#[test]
fn cache_keeps_keys_apart() {
    let mut cache = Cache::open();
    cache.register(&entry("aaaa", Some("/nix/store/a/bin/a"), None, None));
    cache.register(&entry("bbbb", None, Some("/nix/store/b.debug"), None));
    assert_eq!(cache.get_executable("aaaa"), Some("/nix/store/a/bin/a".to_owned()));
    assert_eq!(cache.get_executable("bbbb"), None);
    assert_eq!(cache.get_debuginfo("bbbb"), Some("/nix/store/b.debug".to_owned()));
    assert_eq!(cache.get_debuginfo("cccc"), None);
}

#[test]
fn watermark_starts_at_zero_and_is_overwritten() {
    let mut cache = Cache::open();
    assert_eq!(cache.get_registration_timestamp(), 0);
    cache.set_registration_timestamp(43);
    assert_eq!(cache.get_registration_timestamp(), 43);
}

fn row(path: &str, time: i64) -> BatchRow {
    BatchRow { path: path.to_owned(), time }
}

#[test]
fn batch_returns_paths_and_successor_of_greatest_time() {
    let rows = vec![row("/nix/store/aaa", 10), row("/nix/store/bbb", 42)];
    let (paths, new_lo) = process_batch_rows(&rows, 10).unwrap();
    assert_eq!(paths, vec!["/nix/store/aaa".to_owned(), "/nix/store/bbb".to_owned()]);
    assert_eq!(new_lo, 43);
}

#[test]
fn empty_batch_keeps_the_watermark() {
    let (paths, new_lo) = process_batch_rows(&Vec::new(), 7).unwrap();
    assert!(paths.is_empty());
    assert_eq!(new_lo, 7);
}

#[test]
fn corrupt_path_aborts_the_batch() {
    // A torn row without the store prefix.
    let rows = vec![row("/nix/store/aaa", 10), row("/tmp/evil", 11)];
    assert_eq!(process_batch_rows(&rows, 10), Err(BatchError::CorruptRow));
    // A store-rooted path with the wrong number of components.
    let rows = vec![row("/nix/store/aaa/bin", 10)];
    assert_eq!(process_batch_rows(&rows, 10), Err(BatchError::CorruptRow));
}

#[test]
fn unrepresentable_successor_time_aborts_the_batch() {
    // A registration time whose successor does not exist cannot be a
    // real row; it is rejected rather than wrapped.
    let rows = vec![row("/nix/store/aaa", i64::MAX)];
    assert_eq!(process_batch_rows(&rows, 10), Err(BatchError::CorruptRow));
    // Neither can one older than the watermark the query was made with.
    let rows = vec![row("/nix/store/aaa", 9)];
    assert_eq!(process_batch_rows(&rows, 10), Err(BatchError::CorruptRow));
}

#[test]
fn zero_timestamps_are_inconsistent() {
    let rows = vec![row("/nix/store/aaa", 0)];
    assert_eq!(
        process_batch_rows(&rows, 0),
        Err(BatchError::InconsistentTimestamps)
    );
}

#[test]
fn poller_commits_the_watermark_once_after_the_whole_batch() {
    let mut poller = Poller::resume(10);
    let rows = vec![row("/nix/store/aaa", 10), row("/nix/store/bbb", 42)];
    match poller.on_poll(&rows) {
        PollStep::Dispatch(paths) => {
            assert_eq!(paths, vec!["/nix/store/aaa".to_owned(), "/nix/store/bbb".to_owned()]);
        }
        other => panic!("expected a dispatch, got {:?}", other),
    }
    // The barrier: nothing is persisted until the last scan reports done.
    assert_eq!(poller.watermark(), 10);
    assert_eq!(poller.on_scan_done(), None);
    assert_eq!(poller.watermark(), 10);
    assert_eq!(poller.on_scan_done(), Some(43));
    assert_eq!(poller.watermark(), 43);
    assert_eq!(poller.pending(), 0);
    // The next batch persists a strictly larger watermark.
    let rows = vec![row("/nix/store/ccc", 50)];
    match poller.on_poll(&rows) {
        PollStep::Dispatch(paths) => assert_eq!(paths, vec!["/nix/store/ccc".to_owned()]),
        other => panic!("expected a dispatch, got {:?}", other),
    }
    assert_eq!(poller.on_scan_done(), Some(51));
    assert_eq!(poller.watermark(), 51);
}

#[test]
fn poller_backs_off_on_errors_and_empty_answers() {
    let mut poller = Poller::resume(10);
    let corrupt = vec![row("nonsense", 11)];
    assert_eq!(poller.on_poll(&corrupt), PollStep::Retry);
    assert_eq!(poller.watermark(), 10);
    assert_eq!(poller.on_poll(&Vec::new()), PollStep::Wait);
    assert_eq!(poller.watermark(), 10);
}

#[test]
fn found_paths_are_realized_and_served() {
    // The cache row exists; what happens next depends on the store alone.
    let step = lookup_step(Some("/nix/store/aaa-hello/bin/hello".to_owned()));
    assert_eq!(
        step,
        FileStep::Realise("/nix/store/aaa-hello/bin/hello".to_owned())
    );
    assert_eq!(
        realise_reply("/nix/store/aaa-hello/bin/hello".to_owned(), true),
        HttpReply::FileAt("/nix/store/aaa-hello/bin/hello".to_owned())
    );
    assert_eq!(
        realise_reply("/nix/store/aaa-hello/bin/hello".to_owned(), false),
        HttpReply::NotFound
    );
}

#[test]
fn missing_rows_are_refused() {
    assert_eq!(lookup_step(None), FileStep::Refuse);
    assert_eq!(refuse_reply(), HttpReply::NotFound);
}

#[test]
fn the_section_endpoint_is_not_implemented() {
    assert_eq!(section_reply(), HttpReply::NotImplemented);
}
