//! Scans over many files: the turns of the workers, the bookkeeping of the
//! results, the aggregate and its report.

use dacom::aggregate::FileAggregateDateList;
use dacom::aggregate::FileAggregateDateListIterator;
use dacom::args::Args;
use dacom::date::Date;
use dacom::date::Month;
use dacom::list::DateList;
use dacom::recognizer::Recognizer;
use dacom::record::CollectDateError;
use dacom::record::FileDateList;
use dacom::record::IoFailure;
use dacom::report::FileAggregateReport;
use dacom::report::ReportError;
use dacom::scan::RoundRobin;
use dacom::scan::Scan;
use dacom::scan::ScanEvent;
use dacom::scan::WalkStep;

fn date(day: usize, month: Month, year: isize) -> Date {
    Date::new(day, month, year).unwrap()
}

fn record(path: &str, dates: Vec<Date>) -> FileDateList {
    FileDateList::from(path.to_string(), DateList::from(dates))
}

fn paths(aggregate: &FileAggregateDateList) -> Vec<String> {
    aggregate.as_slice().iter().map(|record| record.path().to_string()).collect()
}

#[test]
fn the_turn_goes_round() {
    for workers in 1..=5usize {
        let mut turns = RoundRobin::new(workers);
        assert_eq!(turns.workers(), workers);
        assert_eq!(turns.next(), 0);
        for file in 0..23usize {
            assert_eq!(turns.next(), file % workers);
            assert_eq!(turns.send(), file % workers);
            assert_eq!(turns.workers(), workers);
        }
    }
}

#[test]
fn failures_of_the_file_system_become_errors() {
    assert_eq!(CollectDateError::from_failure(IoFailure::NotFound), CollectDateError::FileNotFound);
    assert_eq!(
        CollectDateError::from_failure(IoFailure::PermissionDenied),
        CollectDateError::PermissionDenied,
    );
    assert_eq!(CollectDateError::from_failure(IoFailure::InvalidData), CollectDateError::InvalidData);
    assert_eq!(CollectDateError::from_failure(IoFailure::Other), CollectDateError::GeneralIOError);
    assert_eq!(
        CollectDateError::from(std::io::Error::from(std::io::ErrorKind::TimedOut)),
        CollectDateError::GeneralIOError,
    );
    assert_eq!(
        CollectDateError::from(std::io::Error::from(std::io::ErrorKind::AlreadyExists)),
        CollectDateError::GeneralIOError,
    );
}

#[test]
fn the_dates_of_a_file_come_from_its_bytes() {
    let recognizer = Recognizer::dates().unwrap();
    let found = FileDateList::from_bytes_with(
        "c.txt".to_string(),
        b"December 25th, 2000 and January 1, 1999",
        &recognizer,
    )
    .unwrap();
    assert_eq!(found.path(), "c.txt");
    assert_eq!(
        found.dates().as_slice(),
        &[date(1, Month::January, 1999), date(25, Month::December, 2000)],
    );

    let found = FileDateList::from_bytes_with("b.txt".to_string(), b"no dates", &recognizer);
    assert!(found.unwrap().dates().is_empty());

    let found = FileDateList::from_bytes_with("e.txt".to_string(), b"", &recognizer);
    assert!(found.unwrap().dates().is_empty());

    let found = FileDateList::from_bytes_with(
        "u.txt".to_string(),
        "\u{00e9}t\u{00e9}: July 14, 1789".as_bytes(),
        &recognizer,
    );
    assert_eq!(found.unwrap().dates().as_slice(), &[date(14, Month::July, 1789)]);
}

#[test]
fn a_directory_is_no_file() {
    let recognizer = Recognizer::dates().unwrap();
    for contents in [&b""[..], b"May 1, 2000", &[0xff]] {
        assert!(matches!(
            FileDateList::from_entry("d".to_string(), true, contents, &recognizer),
            Err(CollectDateError::FileIsDirectory),
        ));
    }
    let found = FileDateList::from_entry("f".to_string(), false, b"May 1, 2000", &recognizer);
    let found = found.unwrap();
    assert_eq!(found.path(), "f");
    assert_eq!(found.dates().as_slice(), &[date(1, Month::May, 2000)]);
    assert!(matches!(
        FileDateList::from_entry("f".to_string(), false, &[0xff], &recognizer),
        Err(CollectDateError::InvalidData),
    ));
}

#[test]
fn bytes_that_are_no_text_are_invalid_data() {
    let recognizer = Recognizer::dates().unwrap();
    for bytes in [&[0xffu8, 0xfe, 0x00][..], &[b'M', b'a', b'y', 0x80], &[0xc3], &[0xed, 0xa0, 0x80]] {
        assert!(matches!(
            FileDateList::from_bytes_with("x.bin".to_string(), bytes, &recognizer),
            Err(CollectDateError::InvalidData),
        ));
    }
}

#[test]
fn a_recognizer_that_leaves_a_group_empty_is_a_general_error() {
    let recognizer = Recognizer::new(r"(?P<m>[A-Z][a-z]+) (?P<d>\d+)").unwrap();
    assert!(matches!(
        FileDateList::from_bytes_with("a.txt".to_string(), b"May 1, 2000", &recognizer),
        Err(CollectDateError::GeneralIOError),
    ));
    assert!(FileDateList::from_bytes_with("a.txt".to_string(), b"nothing", &recognizer).is_ok());
    assert!(matches!(
        FileDateList::from_bytes_with("a.txt".to_string(), &[0xff], &recognizer),
        Err(CollectDateError::InvalidData),
    ));
}

#[test]
fn an_aggregate_keeps_its_records_in_order() {
    let mut aggregate = FileAggregateDateList::new();
    assert!(aggregate.is_empty());
    assert_eq!(aggregate.push(record("m", vec![date(1, Month::May, 2000)])), 0);
    assert_eq!(aggregate.push(record("z", vec![date(1, Month::May, 2001)])), 1);
    assert_eq!(aggregate.push(record("a", vec![date(1, Month::May, 1999)])), 0);
    assert_eq!(aggregate.push(record("n", vec![date(1, Month::May, 2000)])), 2);
    assert_eq!(aggregate.push(record("l", vec![date(1, Month::May, 2000)])), 1);
    assert_eq!(
        aggregate.push(record("k", vec![date(1, Month::May, 2000), date(2, Month::May, 2000)])),
        4,
    );
    assert_eq!(aggregate.push(record("e", vec![])), 0);
    assert_eq!(paths(&aggregate), ["e", "a", "l", "m", "n", "k", "z"]);
    assert_eq!(aggregate.len(), 7);
    assert_eq!(aggregate.get(1).unwrap().path(), "a");
    assert!(aggregate.get(7).is_none());
    for pair in aggregate.as_slice().windows(2) {
        assert_ne!(pair[0].cmp(&pair[1]), std::cmp::Ordering::Greater);
    }

    let mut iterator = aggregate.iter();
    let mut seen = Vec::new();
    while let Some(record) = iterator.next() {
        seen.push(record.path().to_string());
    }
    assert_eq!(seen, paths(&aggregate));
    assert!(iterator.next().is_none());
    assert!(FileAggregateDateListIterator::new(&FileAggregateDateList::new()).next().is_none());
}

#[test]
fn a_walk_descends_into_directories_and_hands_out_files() {
    let mut scan = Scan::new();
    assert!(scan.is_drained());
    assert_eq!(scan.visit(true), WalkStep::Descend);
    assert_eq!(scan.dispatched(), 0);
    assert!(scan.is_drained());
    assert_eq!(scan.visit(false), WalkStep::Dispatch);
    assert_eq!(scan.visit(false), WalkStep::Dispatch);
    assert_eq!(scan.dispatched(), 2);
    assert_eq!(scan.discarded(), 0);
    assert_eq!(scan.kept(), 0);
    assert!(!scan.is_drained());
}

#[test]
fn every_file_that_was_handed_out_is_accounted_for() {
    for files in 0..12usize {
        for workers in 1..=4usize {
            let mut turns = RoundRobin::new(workers);
            let mut scan = Scan::new();
            let mut sent = vec![0usize; workers];
            for _ in 0..files {
                assert_eq!(scan.visit(false), WalkStep::Dispatch);
                sent[turns.send()] += 1;
            }
            assert_eq!(sent.iter().sum::<usize>(), files);
            assert!(sent.iter().all(|count| *count == files / workers || *count == files / workers + 1));

            let mut results = 0;
            while !scan.is_drained() {
                assert_eq!(scan.collect(ScanEvent::Nothing), Ok(()));
                let event = match results % 3 {
                    0 => ScanEvent::Parsed(record(&format!("f{results}"), vec![date(1, Month::May, 2000)])),
                    1 => ScanEvent::Parsed(record(&format!("f{results}"), vec![])),
                    _ => ScanEvent::Failed(CollectDateError::InvalidData),
                };
                assert_eq!(scan.collect(event), Ok(()));
                results += 1;
                assert_eq!(scan.dispatched(), files);
                assert_eq!(scan.kept() + scan.discarded(), results);
            }
            assert_eq!(results, files);
            assert_eq!(scan.kept() + scan.discarded(), files);
            let (kept, discarded) = (scan.kept(), scan.discarded());
            let aggregate = scan.finish();
            assert_eq!(aggregate.len(), kept);
            assert_eq!(kept, (files + 2) / 3);
            assert_eq!(discarded, files - kept);
        }
    }
}

#[test]
fn a_failure_ends_the_scan_with_its_error() {
    for error in [
        CollectDateError::PermissionDenied,
        CollectDateError::FileNotFound,
        CollectDateError::GeneralIOError,
        CollectDateError::FileIsDirectory,
    ] {
        let mut scan = Scan::new();
        scan.visit(false);
        scan.visit(false);
        assert_eq!(scan.collect(ScanEvent::Failed(error)), Err(error));
        assert_eq!(scan.discarded(), 0);
        assert_eq!(scan.kept(), 0);
        assert_eq!(scan.dispatched(), 2);
    }
}

#[test]
fn three_text_files() {
    let recognizer = Recognizer::dates().unwrap();
    let files: [(&str, &[u8]); 3] = [
        ("a.txt", b"March 1, 1999"),
        ("b.txt", b"nothing that looks like a date"),
        ("c.txt", b"December 25th, 2000\nJanuary 1, 1999\n"),
    ];
    for order in [[0usize, 1, 2], [2, 1, 0], [1, 2, 0], [2, 0, 1]] {
        let mut scan = Scan::new();
        for _ in 0..files.len() {
            scan.visit(false);
        }
        for index in order {
            let (path, bytes) = files[index];
            let event = match FileDateList::from_bytes_with(path.to_string(), bytes, &recognizer) {
                Ok(record) => ScanEvent::Parsed(record),
                Err(error) => ScanEvent::Failed(error),
            };
            assert!(!scan.is_drained());
            assert_eq!(scan.collect(event), Ok(()));
        }
        assert!(scan.is_drained());
        assert_eq!(scan.discarded(), 1);
        let aggregate = scan.finish();
        assert_eq!(aggregate.len(), 2);
        assert_eq!(paths(&aggregate), ["c.txt", "a.txt"]);
    }
}

#[test]
fn the_aggregate_does_not_depend_on_the_order_of_arrival() {
    let records = || {
        vec![
            record("m", vec![date(1, Month::May, 2000)]),
            record("b", vec![date(1, Month::May, 2000)]),
            record("z", vec![date(1, Month::May, 1999), date(3, Month::June, 2004)]),
            record("a", vec![date(2, Month::May, 2000)]),
        ]
    };
    let mut orders: Vec<[usize; 4]> = Vec::new();
    for first in 0..4usize {
        for second in 0..4usize {
            for third in 0..4usize {
                for fourth in 0..4usize {
                    let order = [first, second, third, fourth];
                    if (0..4usize).all(|index| order.contains(&index)) {
                        orders.push(order);
                    }
                }
            }
        }
    }
    assert_eq!(orders.len(), 24);
    for order in orders {
        let mut scan = Scan::new();
        for _ in 0..4 {
            scan.visit(false);
        }
        let mut arrived: Vec<Option<FileDateList>> = records().into_iter().map(Some).collect();
        for index in order {
            assert_eq!(scan.collect(ScanEvent::Parsed(arrived[index].take().unwrap())), Ok(()));
        }
        assert!(scan.is_drained());
        let aggregate = scan.finish();
        assert_eq!(paths(&aggregate), ["z", "b", "m", "a"]);
        assert_eq!(aggregate.get(0).unwrap().dates().len(), 2);
    }
}

#[test]
fn a_file_with_a_date_that_does_not_exist() {
    let recognizer = Recognizer::dates().unwrap();
    let found =
        FileDateList::from_bytes_with("d.txt".to_string(), b"Octember 40, 2000", &recognizer)
            .unwrap();
    assert!(found.dates().is_empty());
    assert_eq!(Date::from_string("Octember 40, 2000"), Ok(Vec::new()));

    let mut scan = Scan::new();
    scan.visit(false);
    assert_eq!(scan.collect(ScanEvent::Parsed(found)), Ok(()));
    assert!(scan.is_drained());
    assert_eq!(scan.discarded(), 1);
    assert!(scan.finish().is_empty());
}

#[test]
fn a_binary_file_among_text_files() {
    let recognizer = Recognizer::dates().unwrap();
    let files: [(&str, &[u8]); 3] = [
        ("a.txt", b"March 1, 1999"),
        ("b.bin", &[0xff, 0xd8, 0xff, 0xe0, 0x00]),
        ("c.txt", b"April 2, 1999"),
    ];
    let mut scan = Scan::new();
    for _ in 0..files.len() {
        scan.visit(false);
    }
    for (path, bytes) in files {
        let event = match FileDateList::from_bytes_with(path.to_string(), bytes, &recognizer) {
            Ok(record) => ScanEvent::Parsed(record),
            Err(error) => ScanEvent::Failed(error),
        };
        assert_eq!(scan.collect(event), Ok(()));
    }
    assert!(scan.is_drained());
    assert_eq!(paths(&scan.finish()), ["a.txt", "c.txt"]);
}

#[test]
fn a_report_names_the_oldest_the_newest_and_the_median() {
    let empty = FileAggregateDateList::new();
    assert!(matches!(FileAggregateReport::from(&empty), Err(ReportError::NoData)));
    assert!(matches!(empty.create_report(), Err(ReportError::NoData)));
    assert_eq!(ReportError::NoData.to_string(), "No input data");
    assert_eq!(ReportError::InvalidData.to_string(), "Invalid input data");

    for count in 1..=6usize {
        let mut aggregate = FileAggregateDateList::new();
        for index in (0..count).rev() {
            aggregate.push(record(&format!("f{index}"), vec![date(1, Month::May, 2000 + index as isize)]));
        }
        let report = aggregate.create_report().unwrap();
        assert_eq!(report.oldest().path(), "f0");
        assert_eq!(report.newest().path(), format!("f{}", count - 1));
        assert_eq!(report.median().path(), format!("f{}", count / 2));
        assert_eq!(report.raw_data().len(), count);
    }
}

#[test]
fn a_report_is_written() {
    let mut aggregate = FileAggregateDateList::new();
    aggregate.push(record("a.txt", vec![date(1, Month::March, 1999)]));
    aggregate.push(record("c.txt", vec![date(25, Month::December, 2000), date(1, Month::January, -44)]));
    let report = aggregate.create_report().unwrap();
    let expected = "--------- Data Summary ----------\n\n\
        Oldest file:\n   c.txt\n   January 1st, 44 BCE\n   December 25th, 2000\n\
        \nNewest file:\n   a.txt\n   March 1st, 1999\n\
        \nMedian file:\n   a.txt\n   March 1st, 1999\n\
        \n----------- Raw Data ------------\n\n\
        c.txt\n   January 1st, 44 BCE\n   December 25th, 2000\n\n\
        a.txt\n   March 1st, 1999\n\n";
    assert_eq!(report.to_string(), expected);
}

#[test]
fn settings_are_kept() {
    let args = Args::from_values("in".to_string(), Some("out".to_string()), true, Some(3));
    assert_eq!(args.input_file(), "in");
    assert_eq!(args.output_file(), Some("out"));
    assert!(args.verbose());
    assert_eq!(args.threads(), Some(3));
    assert_eq!(args.worker_count(8), 3);

    let args = Args::from_values(String::new(), None, false, None);
    assert_eq!(args.input_file(), "");
    assert_eq!(args.output_file(), None);
    assert!(!args.verbose());
    assert_eq!(args.threads(), None);
    assert_eq!(args.worker_count(8), 8);

    let args = Args::from_values("in".to_string(), None, false, Some(0));
    assert_eq!(args.threads(), None);
    assert_eq!(args.worker_count(1), 1);
}
