use okkake::freshness::{
    needs_refetch, plan, refetch_threshold_at, resolve_fetch, CachedRecord, Plan,
};
use okkake::novel::NovelData;

const NOW: i64 = 1_700_000_000;
const HALF: u32 = 1 << 31;

fn novel(title: &str) -> NovelData {
    NovelData {
        novel_title: title.to_owned(),
        novel_description: "About it".to_owned(),
        author: "Someone".to_owned(),
        subtitles: vec!["One".to_owned(), "Two".to_owned()],
    }
}

fn ok_record(age: i64) -> CachedRecord {
    CachedRecord { payload: Ok(novel("Old")), fetched_at: NOW - age }
}

fn err_record(age: i64) -> CachedRecord {
    CachedRecord { payload: Err("request error".to_owned()), fetched_at: NOW - age }
}

#[test]
fn threshold_spans_twelve_to_twenty_four_hours() {
    assert_eq!(refetch_threshold_at(NOW, false, 0), NOW - 86400);
    assert_eq!(refetch_threshold_at(NOW, false, HALF), NOW - 64800);
    assert_eq!(refetch_threshold_at(NOW, false, u32::MAX), NOW - 43200);
    assert_eq!(refetch_threshold_at(NOW, false, 1), NOW - 86399);
}

#[test]
fn threshold_for_errors_spans_one_to_two_hours() {
    assert_eq!(refetch_threshold_at(NOW, true, 0), NOW - 7200);
    assert_eq!(refetch_threshold_at(NOW, true, HALF), NOW - 5400);
    assert_eq!(refetch_threshold_at(NOW, true, u32::MAX), NOW - 3600);
}

#[test]
fn young_success_is_never_refetched() {
    for &j in [0, 1, HALF, u32::MAX].iter() {
        assert!(!needs_refetch(&ok_record(43200), NOW, j));
        assert!(!needs_refetch(&ok_record(0), NOW, j));
    }
}

#[test]
fn old_success_is_always_refetched() {
    for &j in [0, 1, HALF, u32::MAX].iter() {
        assert!(needs_refetch(&ok_record(86401), NOW, j));
    }
}

#[test]
fn refetch_chance_grows_with_age() {
    assert!(!needs_refetch(&ok_record(64800), NOW, HALF));
    assert!(needs_refetch(&ok_record(64801), NOW, HALF));
    assert!(!needs_refetch(&ok_record(64800), NOW, 0));
    assert!(needs_refetch(&ok_record(64800), NOW, u32::MAX));
}

#[test]
fn error_records_use_the_short_window() {
    for &j in [0, HALF, u32::MAX].iter() {
        assert!(!needs_refetch(&err_record(3600), NOW, j));
        assert!(needs_refetch(&err_record(7201), NOW, j));
        assert!(!needs_refetch(&ok_record(7201), NOW, j));
    }
    assert!(!needs_refetch(&err_record(5400), NOW, HALF));
    assert!(needs_refetch(&err_record(5401), NOW, HALF));
}

#[test]
fn plan_fetches_without_a_record() {
    assert!(matches!(plan(None, NOW, 0), Plan::Fetch(None)));
}

#[test]
fn plan_serves_a_fresh_record() {
    match plan(Some(ok_record(60)), NOW, HALF) {
        Plan::Serve(Ok(data)) => assert_eq!(data, novel("Old")),
        other => panic!("unexpected plan: {:?}", other),
    }
}

#[test]
fn plan_surfaces_a_fresh_error_record() {
    match plan(Some(err_record(60)), NOW, HALF) {
        Plan::Serve(Err(e)) => assert_eq!(e, "request error"),
        other => panic!("unexpected plan: {:?}", other),
    }
}

#[test]
fn plan_refetches_a_stale_record() {
    match plan(Some(ok_record(90000)), NOW, HALF) {
        Plan::Fetch(Some(rec)) => assert_eq!(rec, ok_record(90000)),
        other => panic!("unexpected plan: {:?}", other),
    }
}

#[test]
fn success_is_stored_and_served() {
    let r = resolve_fetch(Some(err_record(9000)), Ok(novel("New")), NOW);
    assert!(r.store);
    assert_eq!(r.record, CachedRecord { payload: Ok(novel("New")), fetched_at: NOW });
}

#[test]
fn failure_falls_back_to_recent_success() {
    let r = resolve_fetch(Some(ok_record(82800)), Err("timeout".to_owned()), NOW);
    assert!(!r.store);
    assert_eq!(r.record, ok_record(82800));
    let edge = resolve_fetch(Some(ok_record(86400)), Err("timeout".to_owned()), NOW);
    assert!(!edge.store);
    assert_eq!(edge.record, ok_record(86400));
}

#[test]
fn failure_after_a_day_is_stored() {
    let r = resolve_fetch(Some(ok_record(86401)), Err("timeout".to_owned()), NOW);
    assert!(r.store);
    assert_eq!(r.record, CachedRecord { payload: Err("timeout".to_owned()), fetched_at: NOW });
}

#[test]
fn failure_after_an_error_or_nothing_is_stored() {
    let r = resolve_fetch(Some(err_record(60)), Err("timeout".to_owned()), NOW);
    assert!(r.store);
    assert_eq!(r.record, CachedRecord { payload: Err("timeout".to_owned()), fetched_at: NOW });
    let none = resolve_fetch(None, Err("timeout".to_owned()), NOW);
    assert!(none.store);
    assert_eq!(none.record, CachedRecord { payload: Err("timeout".to_owned()), fetched_at: NOW });
}
