use helic::history::StreamHeader;
use helic::storage::{segment_file_names, CloseReason, SegmentPlan, StorageError};

const STARTED_NS: i64 = 1_700_000_000_123_000_000;

fn header(n_sources: u8, first_index: u32, decimation: u16, n_records: u16) -> StreamHeader {
    StreamHeader {
        n_sources,
        seq: 7,
        first_index,
        dropped: 3,
        decimation,
        n_records,
    }
}

#[test]
fn segment_files_are_numbered_with_four_digits() {
    assert_eq!(
        segment_file_names("run", 7),
        ("run_0007.h5".to_string(), "run_0007.h5.partial".to_string())
    );
    assert_eq!(segment_file_names("run", 0).0, "run_0000.h5");
    assert_eq!(segment_file_names("run", 12_345).0, "run_12345.h5");
    assert_eq!(segment_file_names("", u32::MAX).0, "_4294967295.h5");
}

#[test]
fn sessions_are_named_by_start_time_and_experiment() {
    let mut plan = SegmentPlan::new(1 << 30);
    let (file, partial) = plan.start(2, STARTED_NS, "cbc rig").unwrap();
    assert_eq!(file, "20231114T221320.123Z_cbc_rig_0000.h5");
    assert_eq!(partial, "20231114T221320.123Z_cbc_rig_0000.h5.partial");
    let mut unnamed = SegmentPlan::new(1 << 30);
    let (file, _) = unnamed.start(1, 0, "").unwrap();
    assert_eq!(file, "19700101T000000.000Z_device_0000.h5");
}

#[test]
fn sessions_need_sources_and_no_open_segment() {
    let mut plan = SegmentPlan::new(1 << 30);
    assert_eq!(plan.start(0, STARTED_NS, "x"), Err(StorageError::NoSources));
    plan.start(2, STARTED_NS, "x").unwrap();
    plan.segment_opened();
    assert_eq!(plan.start(2, STARTED_NS, "x"), Err(StorageError::AlreadyActive));
}

#[test]
fn packets_get_sample_indices_and_record_offsets() {
    let mut plan = SegmentPlan::new(1 << 30);
    assert_eq!(
        plan.append(header(2, 100, 1, 2)).unwrap_err(),
        StorageError::NoSession
    );
    plan.start(2, STARTED_NS, "cbc-rig").unwrap();
    assert_eq!(
        plan.append(header(2, 100, 1, 2)).unwrap_err(),
        StorageError::NoSegment
    );
    plan.segment_opened();
    let first = plan.append(header(2, 100, 1, 2)).unwrap();
    assert_eq!(first.sample_indices, vec![100, 101]);
    assert_eq!(first.record_offset, 0);
    let second = plan.append(header(2, u32::MAX, 3, 3)).unwrap();
    assert_eq!(second.sample_indices, vec![u32::MAX, 2, 5]);
    assert_eq!(second.record_offset, 2);
    assert_eq!(
        plan.append(header(3, 0, 1, 1)).unwrap_err(),
        StorageError::SourceCountChanged
    );
    let third = plan.append(header(2, 0, 1, 1)).unwrap();
    assert_eq!(third.record_offset, 5);
}

#[test]
fn size_threshold_starts_a_linked_segment() {
    let mut plan = SegmentPlan::new(1);
    plan.start(2, STARTED_NS, "cbc-rig").unwrap();
    plan.segment_opened();
    plan.append(header(2, 100, 1, 2)).unwrap();
    assert!(SegmentPlan::flush_due(2000));
    assert!(!SegmentPlan::flush_due(999));
    assert!(plan.rotation_due(1));
    assert!(!SegmentPlan::new(100).rotation_due(99));
    let (file, _) = plan.rotate().unwrap();
    assert_eq!(file, "20231114T221320.123Z_cbc-rig_0001.h5");
    plan.segment_opened();
    assert_eq!(plan.append(header(2, 102, 1, 1)).unwrap().record_offset, 2);
    assert_eq!(plan.stop(CloseReason::StreamStop), Some((2, true)));
    assert_eq!(plan.stop(CloseReason::StreamStop), None);
    assert_eq!(plan.rotate().unwrap_err(), StorageError::NoSegment);
}

#[test]
fn stopping_reports_the_close_reason_and_completeness() {
    let mut plan = SegmentPlan::new(1 << 30);
    plan.start(1, STARTED_NS, "x").unwrap();
    plan.segment_opened();
    assert_eq!(plan.stop(CloseReason::UpstreamLost), Some((4, false)));
    plan.start(1, STARTED_NS, "x").unwrap();
    plan.segment_opened();
    plan.abandon();
    assert_eq!(plan.stop(CloseReason::BrokerShutdown), None);
    assert_eq!(
        plan.append(header(1, 0, 1, 1)).unwrap_err(),
        StorageError::NoSession
    );
}
