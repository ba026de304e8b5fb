use cricket_ready::label::Label;
use cricket_ready::training::{
    after_step, compact_stamp, image_file_name, label_dir, plan_training, plan_training_at,
    moment_of, read_clock, record_at, record_at_moment, record_now, stamp_now, stamp_of, training_log_path,
    validate_label, Moment, RequestContext, TrainingStep, UtcStamp,
};

fn stamp() -> UtcStamp {
    UtcStamp {
        year: 2024,
        month: 1,
        day: 2,
        hour: 3,
        minute: 4,
        second: 5,
        nanos: 6_007_008,
        epoch_millis: 1_704_164_645_006,
    }
}

#[test]
fn stamp_text_is_zero_padded() {
    assert_eq!(compact_stamp(&stamp()), "20240102_030405_006007");
    let s = UtcStamp { year: 2025, month: 12, day: 31, hour: 23, minute: 59, second: 59, nanos: 999_999_999, epoch_millis: 0 };
    assert_eq!(compact_stamp(&s), "20251231_235959_999999");
}

#[test]
fn image_names_carry_request_id() {
    assert_eq!(image_file_name(&stamp(), 42), "20240102_030405_006007_42.jpg");
    assert_ne!(image_file_name(&stamp(), 1), image_file_name(&stamp(), 2));
    assert_ne!(image_file_name(&stamp(), 12), image_file_name(&stamp(), 2));
}

#[test]
fn paths() {
    assert_eq!(label_dir(Label::MatchReady), "training_data/match_ready");
    assert_eq!(label_dir(Label::NotMatchReady), "training_data/not_match_ready");
    assert_eq!(training_log_path(), "training_data/training_log.jsonl");
}

#[test]
fn invalid_label_is_refused() {
    let ctx = RequestContext { request_id: 5 };
    let e = plan_training_at(&Some("sideways".to_string()), ctx, &stamp()).unwrap_err();
    assert_eq!(e.status(), 400);
    assert_eq!(e.message(), "Label must be either 'match_ready' or 'not_match_ready'");
    let e = plan_training(&Some("sideways".to_string()), ctx).unwrap_err();
    assert_eq!(e.status(), 400);
}

#[test]
fn missing_label_is_refused() {
    let e = validate_label(&None).unwrap_err();
    assert_eq!(e.status(), 400);
    assert_eq!(e.message(), "Label is required for training data");
}

#[test]
fn valid_label_is_planned() {
    let ctx = RequestContext { request_id: 77 };
    let p = plan_training_at(&Some("not_match_ready".to_string()), ctx, &stamp()).unwrap();
    assert_eq!(p.label, Label::NotMatchReady);
    assert_eq!(p.request_id, 77);
    assert_eq!(p.label_dir, "training_data/not_match_ready");
    assert_eq!(p.filename, "20240102_030405_006007_77.jpg");
    assert_eq!(p.file_path, "training_data/not_match_ready/20240102_030405_006007_77.jpg");
}

#[test]
fn concurrent_requests_get_distinct_files() {
    let a = plan_training(&Some("match_ready".to_string()), RequestContext { request_id: 100 }).unwrap();
    let b = plan_training(&Some("match_ready".to_string()), RequestContext { request_id: 101 }).unwrap();
    assert_ne!(a.file_path, b.file_path);
    assert!(a.filename.ends_with("_100.jpg"));
    assert!(b.file_path.starts_with("training_data/match_ready/"));
}

#[test]
fn clock_gives_request_id() {
    let ctx = RequestContext::begin().unwrap();
    assert!(ctx.request_id > 1_600_000_000_000);
    assert_eq!(RequestContext::from_stamp(&stamp()).request_id, 1_704_164_645_006);
}

#[test]
fn records_copy_the_plan() {
    let p = plan_training_at(&Some("match_ready".to_string()), RequestContext { request_id: 9 }, &stamp()).unwrap();
    let r = record_at(&p, 1234, "2024-01-02T03:04:05.006007008+00:00".to_string());
    assert_eq!(r.timestamp, "2024-01-02T03:04:05.006007008+00:00");
    assert_eq!(r.request_id, 9);
    assert_eq!(r.label, Label::MatchReady);
    assert_eq!(r.filename, p.filename);
    assert_eq!(r.file_path, p.file_path);
    assert_eq!(r.image_size_bytes, 1234);
    let now = record_now(&p, 5).unwrap();
    assert!(now.timestamp.contains('T'));
    assert!(now.timestamp.ends_with("+00:00"));
    assert_eq!(now.image_size_bytes, 5);
}

#[test]
fn step_order() {
    assert_eq!(after_step(TrainingStep::CreateDir, Ok(())).unwrap(), Some(TrainingStep::WriteImage));
    assert_eq!(after_step(TrainingStep::WriteImage, Ok(())).unwrap(), Some(TrainingStep::AppendLog));
    assert_eq!(after_step(TrainingStep::AppendLog, Ok(())).unwrap(), None);
}

#[test]
fn storage_failures() {
    let e = after_step(TrainingStep::CreateDir, Err("denied".to_string())).unwrap_err();
    assert_eq!(e.status(), 500);
    assert_eq!(e.message(), "Failed to create training directory: denied");
    let e = after_step(TrainingStep::WriteImage, Err("disk full".to_string())).unwrap_err();
    assert_eq!(e.status(), 500);
    assert_eq!(e.message(), "Failed to write training image: disk full");
    assert_eq!(after_step(TrainingStep::AppendLog, Err("locked".to_string())).unwrap(), None);
}

#[test]
fn moments_become_calendar_fields() {
    let m = Moment { secs: 1_704_164_645, nanos: 6_007_008 };
    assert_eq!(stamp_of(m), Some(stamp()));
    let e = stamp_of(Moment { secs: 0, nanos: 0 }).unwrap();
    assert_eq!((e.year, e.month, e.day, e.hour, e.epoch_millis), (1970, 1, 1, 0, 0));
    assert!(stamp_of(Moment { secs: i64::MAX, nanos: 0 }).is_none());
}

#[test]
fn clock_reads_after_epoch() {
    let m = read_clock().unwrap();
    assert!(m.secs > 1_600_000_000);
    assert!(m.nanos < 1_000_000_000);
    assert!(stamp_now().unwrap().year >= 2020);
}

#[test]
fn record_timestamp_is_rfc3339() {
    let p = plan_training_at(&Some("match_ready".to_string()), RequestContext { request_id: 3 }, &stamp()).unwrap();
    let m = Moment { secs: 1_704_164_645, nanos: 6_007_008 };
    let r = record_at_moment(&p, 10, m).unwrap();
    assert_eq!(r.timestamp, "2024-01-02T03:04:05.006007008+00:00");
    let r = record_at_moment(&p, 10, Moment { secs: 1_704_164_645, nanos: 0 }).unwrap();
    assert_eq!(r.timestamp, "2024-01-02T03:04:05+00:00");
    assert!(record_at_moment(&p, 10, Moment { secs: i64::MAX, nanos: 0 }).is_none());
}

#[test]
fn storage_starts_with_directory() {
    let p = plan_training_at(&Some("match_ready".to_string()), RequestContext { request_id: 3 }, &stamp()).unwrap();
    assert_eq!(p.first_step(), TrainingStep::CreateDir);
}

#[test]
fn moments_from_clock_values() {
    assert_eq!(moment_of(5, 7), Some(Moment { secs: 5, nanos: 7 }));
    assert_eq!(moment_of(i64::MAX as u64, 0), Some(Moment { secs: i64::MAX, nanos: 0 }));
    assert_eq!(moment_of(i64::MAX as u64 + 1, 0), None);
}

#[test]
fn far_years_are_signed() {
    let s = UtcStamp { year: 12345, month: 6, day: 7, hour: 8, minute: 9, second: 10, nanos: 0, epoch_millis: 0 };
    assert_eq!(compact_stamp(&s), "+123450607_080910_000000");
    let s = UtcStamp { year: 1970, ..s };
    assert_eq!(compact_stamp(&s), "19700607_080910_000000");
}

#[test]
fn record_made_whenever_moment_is_in_range() {
    let p = plan_training_at(&Some("not_match_ready".to_string()), RequestContext { request_id: 8 }, &stamp()).unwrap();
    for secs in [0i64, 1_000_000_000, 253_402_300_799, 253_402_300_800, i64::MAX] {
        let m = Moment { secs, nanos: 0 };
        assert_eq!(record_at_moment(&p, 1, m).is_some(), stamp_of(m).is_some(), "{}", secs);
    }
    let far = record_at_moment(&p, 1, Moment { secs: 253_402_300_800, nanos: 0 }).unwrap();
    assert_eq!(far.timestamp, "+10000-01-01T00:00:00+00:00");
}
