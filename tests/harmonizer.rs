use harmonizer::config::Config;
use harmonizer::error::HarmonizeError;
use harmonizer::event::{FribEvent, GetEvent, MergerEvent, Traces};
use harmonizer::naming::{
    construct_run_path, event_name_of, legacy_event_name_of, legacy_scaler_name_of, run_file_name_of,
};
use harmonizer::reader::{MergerReader, ReaderRequest};
use harmonizer::scalers::{column_name, process_scalers, RunScalers, ScalerTable};
use harmonizer::scan::{get_total_merger_bytes, get_total_merger_events, run_event_count};
use harmonizer::version::{detect_version, legacy_bounds, MergerVersion, RunBounds};
use harmonizer::writer::{HarmonicWriter, WriteOutcome, MIN_EVENT};

fn names(list: &[&str]) -> Vec<String> {
    list.iter().map(|s| s.to_string()).collect()
}

fn bounds(version: MergerVersion, min_event: u64, max_event: u64) -> RunBounds {
    RunBounds { version, min_event, max_event }
}

fn classified_runs(disk: &[Option<RunBounds>]) -> Vec<Option<Result<RunBounds, HarmonizeError>>> {
    disk.iter().map(|r| r.map(Ok)).collect()
}

fn bare_event(run_number: i32, event: u64) -> MergerEvent {
    MergerEvent { get: None, frib: None, run_number, event }
}

/// Drives a reader over an in-memory range; entry `i` of `disk` is run
/// `min_run + i`. Returns the provenance of every event handed out.
fn drain(disk: &[Option<RunBounds>], min_run: i32, max_run: i32) -> Vec<(i32, u64)> {
    let first = disk[0].expect("first run must exist");
    let mut reader = MergerReader::new("/merger", min_run, max_run, first);
    let mut out = Vec::new();
    loop {
        match reader.next_request() {
            ReaderRequest::Finished => break,
            ReaderRequest::OpenRun { run } => {
                reader.open_run(disk[(run - min_run) as usize]);
            }
            ReaderRequest::ReadEvent { run, event, .. } => {
                let e = reader.read_event(None, None);
                assert_eq!((e.run_number, e.event), (run, event));
                out.push((e.run_number, e.event));
            }
        }
    }
    out
}

#[test]
fn run_path_pads_to_four_digits() {
    assert_eq!(construct_run_path("/data", 5), "/data/run_0005.h5");
    assert_eq!(construct_run_path("/data", 42), "/data/run_0042.h5");
    assert_eq!(construct_run_path("/data", 0), "/data/run_0000.h5");
}

#[test]
fn run_path_keeps_long_numbers() {
    assert_eq!(construct_run_path("/data", 12345), "/data/run_12345.h5");
    assert_eq!(construct_run_path("/data", 1000), "/data/run_1000.h5");
}

#[test]
fn run_path_joins_without_double_separator() {
    assert_eq!(construct_run_path("/data/", 7), "/data/run_0007.h5");
    assert_eq!(construct_run_path("", 7), "run_0007.h5");
    assert_eq!(construct_run_path("rel/dir", 3), "rel/dir/run_0003.h5");
}

#[test]
fn run_path_negative_number_pads_after_sign() {
    assert_eq!(run_file_name_of(-5), "run_-005.h5");
    assert_eq!(run_file_name_of(-1234), "run_-1234.h5");
    assert_eq!(run_file_name_of(i32::MIN), "run_-2147483648.h5");
    assert_eq!(construct_run_path("/data", -1), "/data/run_-001.h5");
}

#[test]
fn run_path_is_deterministic() {
    let a = construct_run_path("/base", 55);
    let b = construct_run_path("/base", 55);
    assert_eq!(a, b);
    assert_ne!(construct_run_path("/base", 56), a);
}

#[test]
fn dataset_names() {
    assert_eq!(event_name_of(0), "event_0");
    assert_eq!(event_name_of(1234), "event_1234");
    assert_eq!(legacy_event_name_of(3, "header"), "evt3_header");
    assert_eq!(legacy_event_name_of(17, "1903"), "evt17_1903");
    assert_eq!(legacy_scaler_name_of(0), "scaler0_data");
    assert_eq!(legacy_scaler_name_of(4294967295), "scaler4294967295_data");
}

#[test]
fn version_detection() {
    assert_eq!(detect_version(&names(&["get", "meta", "frib"])), Ok(MergerVersion::V010));
    assert_eq!(detect_version(&names(&["events", "scalers"])), Ok(MergerVersion::V020));
    assert_eq!(detect_version(&names(&["events", "meta"])), Ok(MergerVersion::V010));
}

#[test]
fn invalid_schema_is_rejected() {
    assert_eq!(detect_version(&names(&["runinfo", "data"])), Err(HarmonizeError::InvalidVersion));
    assert_eq!(detect_version(&names(&[])), Err(HarmonizeError::InvalidVersion));
    assert_eq!(detect_version(&names(&["Meta", "event"])), Err(HarmonizeError::InvalidVersion));
}

#[test]
fn scan_fails_on_invalid_schema() {
    let invalid = detect_version(&names(&["runinfo"])).map(|v| bounds(v, 0, 1));
    let runs = vec![Some(Ok(bounds(MergerVersion::V010, 0, 4))), None, Some(invalid)];
    assert_eq!(get_total_merger_events(&runs), Err(HarmonizeError::InvalidVersion));
    let fine = vec![Some(Ok(bounds(MergerVersion::V010, 0, 4))), None];
    assert_eq!(get_total_merger_events(&fine), Ok(5));
}

#[test]
fn legacy_bounds_from_meta_array() {
    assert_eq!(legacy_bounds(&vec![3, 99, 10]), Ok(bounds(MergerVersion::V010, 3, 10)));
    assert_eq!(legacy_bounds(&vec![3, 99]), Err(HarmonizeError::MalformedRecord));
}

#[test]
fn scan_counts_bytes_and_events() {
    assert_eq!(get_total_merger_bytes(&vec![Some(100), None, Some(50)]), 150);
    assert_eq!(get_total_merger_bytes(&vec![]), 0);
    assert_eq!(get_total_merger_bytes(&vec![Some(u64::MAX), Some(1)]), u64::MAX);
    let runs = vec![
        Some(bounds(MergerVersion::V010, 0, 9)),
        None,
        Some(bounds(MergerVersion::V020, 0, 10)),
    ];
    assert_eq!(get_total_merger_events(&classified_runs(&runs)).unwrap(), 20);
    assert_eq!(run_event_count(bounds(MergerVersion::V010, 5, 5)), 1);
    assert_eq!(run_event_count(bounds(MergerVersion::V020, 5, 5)), 0);
    assert_eq!(run_event_count(bounds(MergerVersion::V010, 6, 5)), 0);
}

#[test]
fn absent_run_contributes_nothing() {
    let with_gap = vec![Some(bounds(MergerVersion::V010, 0, 2)), None, Some(bounds(MergerVersion::V010, 0, 1))];
    let without = vec![Some(bounds(MergerVersion::V010, 0, 2)), Some(bounds(MergerVersion::V010, 0, 1))];
    assert_eq!(get_total_merger_events(&classified_runs(&with_gap)).unwrap(), get_total_merger_events(&classified_runs(&without)).unwrap());
    assert_eq!(get_total_merger_bytes(&vec![Some(10), None]), 10);
    let events = drain(&with_gap, 4, 6);
    assert_eq!(events, vec![(4, 0), (4, 1), (4, 2), (6, 0), (6, 1)]);
    let mut table = ScalerTable::new();
    assert_eq!(table.add_run(5, &None), Ok(()));
    assert_eq!(table.len(), 0);
}

#[test]
fn reader_walks_runs_in_order() {
    let disk = vec![
        Some(bounds(MergerVersion::V010, 0, 1)),
        None,
        Some(bounds(MergerVersion::V020, 2, 4)),
        None,
    ];
    let mut reader = MergerReader::new("/merger", 10, 13, disk[0].unwrap());
    assert_eq!(reader.merger_path(), "/merger");
    assert_eq!(
        reader.next_request(),
        ReaderRequest::ReadEvent { version: MergerVersion::V010, run: 10, event: 0 }
    );
    let e = reader.read_event(None, None);
    assert_eq!((e.run_number, e.event), (10, 0));
    reader.read_event(None, None);
    assert_eq!(reader.next_request(), ReaderRequest::OpenRun { run: 11 });
    reader.open_run(None);
    assert_eq!(reader.next_request(), ReaderRequest::OpenRun { run: 12 });
    reader.open_run(disk[2]);
    assert_eq!(
        reader.next_request(),
        ReaderRequest::ReadEvent { version: MergerVersion::V020, run: 12, event: 2 }
    );
    reader.read_event(None, None);
    assert_eq!(
        reader.next_request(),
        ReaderRequest::ReadEvent { version: MergerVersion::V020, run: 12, event: 3 }
    );
    reader.read_event(None, None);
    assert_eq!(reader.next_request(), ReaderRequest::OpenRun { run: 13 });
    reader.open_run(None);
    assert_eq!(reader.next_request(), ReaderRequest::Finished);
}

#[test]
fn reader_keeps_payloads() {
    let mut reader = MergerReader::new("/m", 1, 1, bounds(MergerVersion::V020, 7, 8));
    let get = GetEvent {
        traces: Traces::new(1, 2, vec![-1i16, 2]).unwrap(),
        id: 9,
        timestamp: 100,
        timestamp_other: 200,
    };
    let e = reader.read_event(Some(get), None);
    assert_eq!((e.run_number, e.event), (1, 7));
    let g = e.get.unwrap();
    assert_eq!(g.traces.samples, vec![-1, 2]);
    assert_eq!((g.id, g.timestamp, g.timestamp_other), (9, 100, 200));
    assert!(e.frib.is_none());
    assert_eq!(reader.next_request(), ReaderRequest::Finished);
}

#[test]
fn reader_reads_maximal_event_index() {
    let disk = vec![Some(bounds(MergerVersion::V010, u64::MAX - 1, u64::MAX))];
    assert_eq!(drain(&disk, 0, 0), vec![(0, u64::MAX - 1), (0, u64::MAX)]);
}

#[test]
fn reader_with_reversed_range_reads_first_run_only() {
    let disk = vec![Some(bounds(MergerVersion::V010, 0, 2))];
    assert_eq!(drain(&disk, 5, 3), vec![(5, 0), (5, 1), (5, 2)]);
}

#[test]
fn legacy_scan_matches_read_count() {
    let disk = vec![
        Some(bounds(MergerVersion::V010, 0, 4)),
        None,
        Some(bounds(MergerVersion::V010, 3, 7)),
        Some(bounds(MergerVersion::V010, 2, 1)),
    ];
    let read = drain(&disk, 20, 23);
    assert_eq!(read.len() as u64, get_total_merger_events(&classified_runs(&disk)).unwrap());
    assert_eq!(read.len(), 10);
}

#[test]
fn current_schema_scan_matches_read() {
    let disk = vec![Some(bounds(MergerVersion::V020, 0, 3))];
    assert_eq!(drain(&disk, 1, 1), vec![(1, 0), (1, 1), (1, 2)]);
    assert_eq!(get_total_merger_events(&classified_runs(&disk)).unwrap(), 3);
    let empty = vec![Some(bounds(MergerVersion::V020, 0, 0))];
    assert_eq!(drain(&empty, 1, 1), vec![]);
    assert_eq!(get_total_merger_events(&classified_runs(&empty)).unwrap(), 0);
    let mixed = vec![
        Some(bounds(MergerVersion::V020, 2, 6)),
        None,
        Some(bounds(MergerVersion::V010, 0, 0)),
        Some(bounds(MergerVersion::V020, 5, 5)),
    ];
    assert_eq!(drain(&mixed, 0, 3).len() as u64, get_total_merger_events(&classified_runs(&mixed)).unwrap());
    assert_eq!(get_total_merger_events(&classified_runs(&mixed)).unwrap(), 5);
}

#[test]
fn written_files_read_back() {
    let mut writer = HarmonicWriter::new("/o", 25);
    let mut counts = Vec::new();
    for i in 0..7u64 {
        let size = 10 * (i % 3 + 1);
        if let WriteOutcome::Rollover { max_event, .. } = writer.write(&bare_event(9, i), size).unwrap() {
            counts.push(max_event);
        }
    }
    counts.push(writer.close());
    assert_eq!(counts, vec![3, 3, 1]);
    let disk: Vec<Option<RunBounds>> =
        counts.iter().map(|&c| Some(bounds(MergerVersion::V020, MIN_EVENT, c))).collect();
    let read = drain(&disk, 0, 2);
    assert_eq!(read, vec![(0, 0), (0, 1), (0, 2), (1, 0), (1, 1), (1, 2), (2, 0)]);
    assert_eq!(get_total_merger_events(&classified_runs(&disk)).unwrap(), 7);
}

#[test]
fn writer_two_files_for_two_runs() {
    // Run A: three events of 50 bytes each; run B: two events of 50 bytes.
    let mut writer = HarmonicWriter::new("/out", 200);
    assert_eq!(writer.current_path(), "/out/run_0000.h5");
    let events = [(1, 0u64), (1, 1), (1, 2), (2, 0), (2, 1)];
    let sizes = [50u64, 100, 150, 200, 50];
    let mut files: Vec<Vec<(i32, u64)>> = vec![vec![]];
    let mut max_events = Vec::new();
    for (k, (run, ev)) in events.iter().enumerate() {
        assert_eq!(writer.next_group_name(), format!("event_{}", files.last().unwrap().len()));
        files.last_mut().unwrap().push((*run, *ev));
        match writer.write(&bare_event(*run, *ev), sizes[k]).unwrap() {
            WriteOutcome::Continue => {}
            WriteOutcome::Rollover { max_event, next_path } => {
                max_events.push(max_event);
                assert_eq!(next_path, "/out/run_0001.h5");
                files.push(vec![]);
            }
        }
    }
    max_events.push(writer.close());
    assert_eq!(files.len(), 2);
    assert_eq!(max_events, vec![4, 1]);
    assert_eq!(files[0], vec![(1, 0), (1, 1), (1, 2), (2, 0)]);
    assert_eq!(files[1], vec![(2, 1)]);
    assert_eq!(max_events.iter().sum::<u64>(), 5);
    assert_eq!(writer.current_path(), "/out/run_0001.h5");
    assert_eq!(MIN_EVENT, 0);
}

#[test]
fn writer_max_event_counts_writes() {
    let mut writer = HarmonicWriter::new("/out/", 10);
    assert_eq!(writer.close(), 0);
    for i in 0..3u64 {
        assert!(matches!(writer.write(&bare_event(0, i), 5).unwrap(), WriteOutcome::Continue));
    }
    assert_eq!(writer.close(), 3);
    match writer.write(&bare_event(0, 3), 10).unwrap() {
        WriteOutcome::Rollover { max_event, next_path } => {
            assert_eq!(max_event, 4);
            assert_eq!(next_path, "/out/run_0001.h5");
        }
        WriteOutcome::Continue => panic!("expected a rollover"),
    }
    assert_eq!(writer.close(), 0);
    assert_eq!(writer.next_group_name(), "event_0");
}

#[test]
fn writer_order_is_preserved_across_files() {
    let disk = vec![Some(bounds(MergerVersion::V010, 0, 3)), Some(bounds(MergerVersion::V020, 1, 3))];
    let read = drain(&disk, 0, 1);
    let mut writer = HarmonicWriter::new("/o", 30);
    let mut files: Vec<Vec<(i32, u64)>> = vec![vec![]];
    let mut size = 0u64;
    for (run, ev) in &read {
        size += 10;
        files.last_mut().unwrap().push((*run, *ev));
        if let WriteOutcome::Rollover { .. } = writer.write(&bare_event(*run, *ev), size).unwrap() {
            files.push(vec![]);
            size = 0;
        }
    }
    let flat: Vec<(i32, u64)> = files.concat();
    assert_eq!(flat, read);
    assert_eq!(files.len(), 3);
    assert!(files[..files.len() - 1].iter().all(|f| f.len() == 3));
}

#[test]
fn writer_zero_threshold_rolls_every_event() {
    let mut writer = HarmonicWriter::new("/o", 0);
    let mut n = 0;
    while n < 3 {
        assert!(matches!(writer.write(&bare_event(0, n), 1).unwrap(), WriteOutcome::Rollover { .. }));
        n += 1;
    }
    assert_eq!(writer.current_path(), "/o/run_0003.h5");
}

#[test]
fn scalers_legacy_and_current() {
    let rec = |base: u32| (base..base + 11).collect::<Vec<u32>>();
    let legacy = RunScalers::Legacy(vec![rec(0), rec(100), rec(200), rec(300)]);
    let current = RunScalers::Current {
        min_event: 0,
        max_event: 3,
        records: vec![Some(rec(1000)), Some(rec(1100)), Some(rec(1200)), Some(rec(1300))],
    };
    let table = process_scalers(&vec![Some(legacy), Some(current)], 7).unwrap();
    assert_eq!(table.len(), 8);
    assert_eq!(table.column(0), vec![7, 7, 7, 7, 8, 8, 8, 8]);
    assert_eq!(table.column(1), vec![0, 1, 2, 3, 0, 1, 2, 3]);
    assert_eq!(table.column(2), vec![0, 100, 200, 300, 1000, 1100, 1200, 1300]);
    assert_eq!(table.column(12), vec![10, 110, 210, 310, 1010, 1110, 1210, 1310]);
}

#[test]
fn scalers_current_skips_missing_and_keeps_indices() {
    let rec = vec![5u32; 12];
    let mut table = ScalerTable::new();
    let records = vec![Some(rec.clone()), None, Some(rec.clone())];
    assert_eq!(table.read_scalers_020(3, 10, 12, &records), Ok(()));
    assert_eq!(table.column(1), vec![10, 12]);
    assert_eq!(table.column(12), vec![5, 5]);
}

#[test]
fn scalers_missing_run_adds_no_rows() {
    let rec = vec![1u32; 11];
    let runs = vec![Some(RunScalers::Legacy(vec![rec.clone()])), None, Some(RunScalers::Legacy(vec![rec]))];
    let table = process_scalers(&runs, 1).unwrap();
    assert_eq!(table.column(0), vec![1, 3]);
}

#[test]
fn scalers_short_record_is_malformed() {
    let mut table = ScalerTable::new();
    assert_eq!(table.read_scalers_010(1, &vec![vec![1u32; 11], vec![1u32; 10]]), Err(HarmonizeError::MalformedRecord));
    assert_eq!(table.len(), 0);
    let runs = vec![Some(RunScalers::Current { min_event: 0, max_event: 0, records: vec![Some(vec![0u32; 3])] })];
    assert!(matches!(process_scalers(&runs, 0), Err(HarmonizeError::MalformedRecord)));
}

#[test]
fn scaler_column_names() {
    let all: Vec<&str> = (0..13).map(column_name).collect();
    assert_eq!(
        all,
        vec![
            "run", "event", "clock_free", "clock_live", "trig_free", "trig_live", "ic_sca", "mesh_sca",
            "si1_cfd", "si2", "sipm", "ic_ds", "ic_cfd"
        ]
    );
}

#[test]
fn traces_shape_is_checked() {
    assert!(Traces::new(2, 3, vec![0u16; 6]).is_some());
    assert!(Traces::new(2, 3, vec![0u16; 5]).is_none());
    assert!(Traces::new(usize::MAX, 2, Vec::<u16>::new()).is_none());
}

#[test]
fn legacy_frib_header() {
    let t = Traces::new(1, 1, vec![4u16]).unwrap();
    let f = FribEvent::from_legacy_header(t.clone(), vec![1, 2], &vec![77, 88, 99]).unwrap();
    assert_eq!((f.event, f.timestamp), (77, 88));
    assert_eq!(f.coincidence, vec![1, 2]);
    assert!(matches!(FribEvent::from_legacy_header(t, vec![], &vec![1]), Err(HarmonizeError::MalformedRecord)));
}

#[test]
fn config_size_in_bytes() {
    let c = Config {
        merger_path: "/m".to_string(),
        harmonic_path: "/h".to_string(),
        harmonic_size: 1_000_000,
        min_run: 1,
        max_run: 9,
    };
    assert_eq!(c.get_harmonic_size(), 1_000_000);
}
