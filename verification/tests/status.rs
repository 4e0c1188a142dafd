use korp_mono::status::{StatusCollector, StatusMessage};
use korp_mono::u64_to_string;

#[test]
fn digits_render_in_decimal() {
    assert_eq!(u64_to_string(0), "0");
    assert_eq!(u64_to_string(7), "7");
    assert_eq!(u64_to_string(10), "10");
    assert_eq!(u64_to_string(1234), "1234");
    assert_eq!(u64_to_string(u64::MAX), "18446744073709551615");
}

#[test]
fn event_lines_render_per_stage() {
    let read_ok = StatusMessage::Read {
        path: "p".to_string(),
        result: Ok(5),
    };
    assert_eq!(read_ok.line(), "Read file in 5ms");

    let read_err = StatusMessage::Read {
        path: "p".to_string(),
        result: Err("permission denied".to_string()),
    };
    assert_eq!(read_err.line(), "Unable to read: permission denied");

    let xml_ok = StatusMessage::ParseXml {
        path: "p".to_string(),
        result: Ok(12),
    };
    assert_eq!(xml_ok.line(), "Parsed XML in 12ms");

    let xml_err = StatusMessage::ParseXml {
        path: "p".to_string(),
        result: Err("bad tag".to_string()),
    };
    assert_eq!(xml_err.line(), "XML parse error: bad tag");

    let ana_ok = StatusMessage::ParseAnalyses {
        path: "p".to_string(),
        result: Ok(0),
    };
    assert_eq!(ana_ok.line(), "Parsed analyses in 0ms");

    let ana_err = StatusMessage::ParseAnalyses {
        path: "p".to_string(),
        result: Err("trailing input".to_string()),
    };
    assert_eq!(ana_err.line(), "Parse analysis: trailing input");

    let generic = StatusMessage::GenericError {
        path: "p".to_string(),
        error: "cannot create dir".to_string(),
    };
    assert_eq!(generic.line(), "Generic error: cannot create dir");
}

#[test]
fn events_accumulate_per_path_in_order() {
    let mut collector = StatusCollector::new();
    collector.record(StatusMessage::Read {
        path: "a.xml".to_string(),
        result: Ok(3),
    });
    collector.record(StatusMessage::Read {
        path: "b.xml".to_string(),
        result: Err("gone".to_string()),
    });
    collector.record(StatusMessage::ParseXml {
        path: "a.xml".to_string(),
        result: Ok(8),
    });
    collector.record(StatusMessage::ParseAnalyses {
        path: "a.xml".to_string(),
        result: Ok(2),
    });

    assert_eq!(collector.statuses.len(), 2);
    assert_eq!(collector.statuses[0].0, "a.xml");
    assert_eq!(
        collector.statuses[0].1,
        "Read file in 3ms\nParsed XML in 8ms\nParsed analyses in 2ms\n"
    );
    assert_eq!(collector.statuses[1].0, "b.xml");
    assert_eq!(collector.statuses[1].1, "Unable to read: gone\n");
}

#[test]
fn counters_follow_the_stage_rules() {
    let mut collector = StatusCollector::new();
    assert_eq!((collector.nok, collector.nerr), (0, 0));

    collector.record(StatusMessage::Read {
        path: "a".to_string(),
        result: Ok(1),
    });
    assert_eq!((collector.nok, collector.nerr), (0, 0));

    collector.record(StatusMessage::Read {
        path: "b".to_string(),
        result: Err("e".to_string()),
    });
    assert_eq!((collector.nok, collector.nerr), (0, 1));

    collector.record(StatusMessage::ParseXml {
        path: "c".to_string(),
        result: Err("e".to_string()),
    });
    assert_eq!((collector.nok, collector.nerr), (0, 2));

    // the analysis-parse event is the progress signal, whatever its result
    collector.record(StatusMessage::ParseAnalyses {
        path: "a".to_string(),
        result: Ok(1),
    });
    collector.record(StatusMessage::ParseAnalyses {
        path: "d".to_string(),
        result: Err("e".to_string()),
    });
    assert_eq!((collector.nok, collector.nerr), (2, 2));

    collector.record(StatusMessage::GenericError {
        path: "a".to_string(),
        error: "e".to_string(),
    });
    assert_eq!((collector.nok, collector.nerr), (2, 2));
}

#[test]
fn an_unreadable_file_keeps_its_own_log_only() {
    let mut collector = StatusCollector::new();
    collector.record(StatusMessage::Read {
        path: "good.xml".to_string(),
        result: Ok(1),
    });
    collector.record(StatusMessage::Read {
        path: "bad.xml".to_string(),
        result: Err("unreadable bytes".to_string()),
    });
    collector.record(StatusMessage::ParseXml {
        path: "good.xml".to_string(),
        result: Ok(1),
    });

    // the failing file got its classification, the good file is untouched
    assert_eq!(collector.statuses[1].1, "Unable to read: unreadable bytes\n");
    assert_eq!(
        collector.statuses[0].1,
        "Read file in 1ms\nParsed XML in 1ms\n"
    );
}
