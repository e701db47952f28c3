use meganlogs::command::{encode, Command, CommandError};
use meganlogs::logfile::{build_header, FormatError, LogStart, MLog};
use meganlogs::session::{
    pacing_interval_ms, Action, Controller, SessionError, Step, PROTOCOL_OVERHEAD_MS,
};

fn controller(signature: &str, row_size: usize) -> Controller {
    Controller::new(MLog::init(
        &"logs".to_string(),
        &"run".to_string(),
        &signature.to_string(),
        row_size,
    ))
}

/// The response of the unit that carries this row.
fn row_response(row: &[u8]) -> Vec<u8> {
    let length = row.len() + 1;
    let mut bytes = vec![(length / 256) as u8, (length % 256) as u8, 0x01];
    bytes.extend_from_slice(row);
    bytes.extend_from_slice(&[0xC0, 0xFF, 0xEE, 0x00]);
    bytes
}

fn nothing() -> Step {
    Step { action: Action::Nothing, error: None }
}

#[test]
fn a_run_starts_idle_in_session_one() {
    let c = controller("MS3", 20);
    assert_eq!(c.session_id(), 1);
    assert_eq!(c.split_id(), 1);
    assert!(!c.is_logging());
    assert_eq!(c.file_size(), 0);
}

#[test]
fn the_first_row_sets_the_row_size() {
    let first = row_response(&[0u8; 0x0123]);
    let mut c = Controller::negotiate(
        &"logs".to_string(),
        &"run".to_string(),
        &"MS3".to_string(),
        &first,
    )
    .unwrap();
    assert_eq!((c.session_id(), c.split_id(), c.is_logging(), c.file_size()), (1, 1, false, 0));
    match c.toggle("t", 9).action {
        Action::Open(start) => {
            assert_eq!(start.name, "logs/run_t_s1_run1.frd");
            assert_eq!(start.header, build_header("MS3", 9, 0x0123).unwrap());
            assert_eq!(&start.header[79..81], &[0x01, 0x23]);
        }
        other => panic!("expected an open, got {:?}", other),
    }
    assert_eq!(c.file_size(), 81);
}

#[test]
fn no_row_no_run() {
    let path = "logs".to_string();
    let rejected = Controller::negotiate(&path, &path, &path, &[0x00, 0x02, 0x00, 0x07, 0, 0, 0, 0]);
    assert_eq!(rejected.err(), Some(CommandError::Rejected));
    let short = Controller::negotiate(&path, &path, &path, &[0x00, 0x02, 0x01, 0x07]);
    assert_eq!(short.err(), Some(CommandError::Link));
    let none = Controller::negotiate(&path, &path, &path, &[]);
    assert_eq!(none.err(), Some(CommandError::Link));
}

#[test]
fn every_tick_asks_for_realtime_data() {
    let mut c = controller("MS3", 20);
    assert_eq!(c.query(), Command::RealtimeData);
    c.toggle("t", 0);
    assert_eq!(c.query(), Command::RealtimeData);
    assert_eq!(encode(c.query()), vec![0x00, 0x01, 0x41, 0xD3, 0xD9, 0x9E, 0x8B]);
    c.toggle("t", 0);
    assert_eq!(c.query(), Command::RealtimeData);
}

#[test]
fn files_of_a_run_never_share_an_identity() {
    let mut c = controller("MS3", 2);
    let row = row_response(&[1, 2]);
    let mut seen: Vec<(u16, u16)> = Vec::new();
    let mut names: Vec<String> = Vec::new();
    let mut seed: u32 = 2024;
    for _ in 0..20000 {
        seed = seed.wrapping_mul(1_103_515_245).wrapping_add(12345);
        let ids = (c.session_id(), c.split_id());
        let step = match (seed >> 16) % 5 {
            0 | 1 => c.toggle("t", 0),
            2 => c.new_session(),
            3 => c.tick(&row),
            _ => c.close(),
        };
        if let Action::Open(start) = step.action {
            if let Some(last) = seen.last() {
                assert!(*last < ids);
            }
            assert!(!names.contains(&start.name));
            seen.push(ids);
            names.push(start.name);
        }
    }
    assert!(seen.len() > 1000);
}

#[test]
fn logging_three_rows_scenario() {
    let mut c = controller("MS3", 20);
    let mut file: Vec<u8> = Vec::new();

    let step = c.toggle("20240131_120000", 1_706_702_400);
    assert_eq!(step.error, None);
    match step.action {
        Action::Open(LogStart { name, header }) => {
            assert_eq!(name, "logs/run_20240131_120000_s1_run1.frd");
            assert_eq!(header, build_header("MS3", 1_706_702_400, 20).unwrap());
            file.extend_from_slice(&header);
        }
        other => panic!("expected an open, got {:?}", other),
    }
    assert!(c.is_logging());
    assert_eq!(c.file_size(), 81);

    for n in 0u8..3 {
        let row = vec![n; 20];
        let step = c.tick(&row_response(&row));
        assert_eq!(step, Step { action: Action::Append(row.clone()), error: None });
        file.extend_from_slice(&row);
        assert_eq!(c.file_size(), file.len() as u64);
    }

    let step = c.toggle("20240131_120005", 1_706_702_405);
    assert_eq!(step, Step { action: Action::Close, error: None });
    assert!(!c.is_logging());
    assert_eq!(file.len(), 81 + 60);
    assert_eq!(c.file_size(), 141);
    assert_eq!((c.session_id(), c.split_id()), (1, 2));

    let step = c.toggle("20240131_120010", 1_706_702_410);
    match step.action {
        Action::Open(start) => {
            assert_eq!(start.name, "logs/run_20240131_120010_s1_run2.frd");
            assert_eq!(start.header.len(), 81);
        }
        other => panic!("expected an open, got {:?}", other),
    }
    assert_eq!((c.session_id(), c.split_id()), (1, 2));
    assert_eq!(c.file_size(), 81);
}

#[test]
fn identity_stands_still_while_logging() {
    let mut c = controller("MS3", 4);
    c.new_session();
    c.toggle("t", 0);
    c.toggle("t", 0);
    c.toggle("t", 0);
    assert!(c.is_logging());
    assert_eq!((c.session_id(), c.split_id()), (2, 2));
    for _ in 0..10 {
        c.tick(&row_response(&[1, 2, 3, 4]));
        assert_eq!((c.session_id(), c.split_id()), (2, 2));
        c.mark(99);
        assert_eq!((c.session_id(), c.split_id()), (2, 2));
        c.new_session();
        assert_eq!((c.session_id(), c.split_id()), (2, 2));
        assert!(c.is_logging());
    }
    assert_eq!(c.file_size(), 81 + 10 * (4 + 5));
}

#[test]
fn new_session_while_logging_does_nothing() {
    let mut c = controller("MS3", 20);
    c.toggle("t", 0);
    c.tick(&row_response(&[0u8; 20]));
    let step = c.new_session();
    assert_eq!(step, nothing());
    assert!(c.is_logging());
    assert_eq!((c.session_id(), c.split_id()), (1, 1));
    assert_eq!(c.file_size(), 101);
}

#[test]
fn new_session_when_idle_starts_its_splits_at_one() {
    let mut c = controller("MS3", 20);
    c.toggle("t", 0);
    c.toggle("t", 0);
    c.toggle("t", 0);
    c.toggle("t", 0);
    assert_eq!((c.session_id(), c.split_id()), (1, 3));
    let step = c.new_session();
    assert_eq!(step, nothing());
    assert_eq!((c.session_id(), c.split_id()), (2, 1));
    c.new_session();
    assert_eq!((c.session_id(), c.split_id()), (3, 1));
    let step = c.toggle("t", 0);
    match step.action {
        Action::Open(start) => assert_eq!(start.name, "logs/run_t_s3_run1.frd"),
        other => panic!("expected an open, got {:?}", other),
    }
}

#[test]
fn split_number_goes_up_with_every_stop() {
    let mut c = controller("MS3", 20);
    let mut last = c.split_id();
    for _ in 0..50 {
        c.toggle("t", 0);
        assert_eq!(c.split_id(), last);
        c.toggle("t", 0);
        assert_eq!(c.split_id(), last + 1);
        last = c.split_id();
    }
    assert_eq!((c.session_id(), c.split_id()), (1, 51));
}

#[test]
fn closing_when_idle_is_no_failure() {
    let mut c = controller("MS3", 20);
    assert_eq!(c.close(), nothing());
    assert_eq!(c.close(), nothing());
    assert_eq!((c.session_id(), c.split_id()), (1, 1));
    assert!(!c.is_logging());
    assert_eq!(c.file_size(), 0);
}

#[test]
fn closing_twice_is_closing_once() {
    let mut c = controller("MS3", 20);
    c.toggle("t", 0);
    c.tick(&row_response(&[5u8; 20]));
    assert_eq!(c.close(), Step { action: Action::Close, error: None });
    let after_first = (c.session_id(), c.split_id(), c.is_logging(), c.file_size());
    assert_eq!(after_first, (1, 2, false, 101));
    assert_eq!(c.close(), nothing());
    assert_eq!((c.session_id(), c.split_id(), c.is_logging(), c.file_size()), after_first);
}

#[test]
fn tick_when_idle_writes_nothing() {
    let mut c = controller("MS3", 20);
    assert_eq!(c.tick(&row_response(&[5u8; 20])), nothing());
    assert_eq!(c.file_size(), 0);
    assert!(!c.is_logging());
}

#[test]
fn tick_reports_a_failed_query_when_idle() {
    let mut c = controller("MS3", 20);
    let step = c.tick(&[0x00, 0x15, 0x01]);
    assert_eq!(
        step,
        Step { action: Action::Nothing, error: Some(SessionError::Query(CommandError::Link)) }
    );
    let step = c.tick(&[0x00, 0x02, 0x00, 0x07, 0, 0, 0, 0]);
    assert_eq!(step.error, Some(SessionError::Query(CommandError::Rejected)));
    let step = c.tick(&[0x00, 0x00, 0x01, 0, 0, 0, 0]);
    assert_eq!(step.error, Some(SessionError::Query(CommandError::Malformed)));
    assert_eq!((c.session_id(), c.split_id()), (1, 1));
}

#[test]
fn a_failed_query_ends_logging() {
    let mut c = controller("MS3", 20);
    c.toggle("t", 0);
    c.tick(&row_response(&[5u8; 20]));
    let step = c.tick(&[0x00, 0x15]);
    assert_eq!(
        step,
        Step { action: Action::Close, error: Some(SessionError::Query(CommandError::Link)) }
    );
    assert!(!c.is_logging());
    assert_eq!((c.session_id(), c.split_id()), (1, 2));
    assert_eq!(c.file_size(), 101);
    assert_eq!(c.tick(&row_response(&[5u8; 20])), nothing());
}

#[test]
fn rows_are_appended_as_they_come() {
    let mut c = controller("MS3", 20);
    c.toggle("t", 0);
    let short = vec![9u8; 3];
    assert_eq!(
        c.tick(&row_response(&short)),
        Step { action: Action::Append(short), error: None }
    );
    assert_eq!(c.file_size(), 84);
    assert_eq!(c.tick(&row_response(&[])), Step { action: Action::Append(vec![]), error: None });
    assert_eq!(c.file_size(), 84);
}

#[test]
fn mark_appends_a_marker_while_logging() {
    let mut c = controller("MS3", 20);
    assert_eq!(c.mark(0x0A0B_0C0D), nothing());
    assert_eq!(c.file_size(), 0);
    c.toggle("t", 0);
    let step = c.mark(0x0A0B_0C0D);
    assert_eq!(
        step,
        Step { action: Action::Append(vec![0x02, 0x0A, 0x0B, 0x0C, 0x0D]), error: None }
    );
    assert_eq!(c.file_size(), 86);
    c.toggle("t", 0);
    assert_eq!(c.mark(1), nothing());
    assert_eq!(c.file_size(), 86);
}

#[test]
fn toggle_fails_when_no_header_can_be_built() {
    let mut c = controller(&"s".repeat(64), 20);
    let step = c.toggle("t", 0);
    assert_eq!(
        step,
        Step {
            action: Action::Nothing,
            error: Some(SessionError::Format(FormatError::SignatureTooLong)),
        }
    );
    assert!(!c.is_logging());
    assert_eq!((c.session_id(), c.split_id()), (1, 1));

    let mut c = controller("MS3", 65536);
    let step = c.toggle("t", 0);
    assert_eq!(step.error, Some(SessionError::Format(FormatError::RowSizeTooLarge)));
    assert_eq!(step.action, Action::Nothing);
    assert!(!c.is_logging());
}

#[test]
fn a_session_runs_out_of_splits() {
    let mut c = controller("MS3", 20);
    for _ in 0..65534u32 {
        assert_eq!(c.toggle("t", 0).error, None);
        assert_eq!(c.toggle("t", 0), Step { action: Action::Close, error: None });
    }
    assert_eq!((c.session_id(), c.split_id()), (1, 65535));
    let step = c.toggle("t", 0);
    assert_eq!(
        step,
        Step { action: Action::Nothing, error: Some(SessionError::SplitsExhausted) }
    );
    assert!(!c.is_logging());
    assert_eq!((c.session_id(), c.split_id()), (1, 65535));
    assert_eq!(c.new_session(), nothing());
    assert_eq!((c.session_id(), c.split_id()), (2, 1));
    assert_eq!(c.toggle("t", 0).error, None);
    assert!(c.is_logging());
}

#[test]
fn a_run_runs_out_of_sessions() {
    let mut c = controller("MS3", 20);
    for _ in 0..65534u32 {
        assert_eq!(c.new_session(), nothing());
    }
    assert_eq!((c.session_id(), c.split_id()), (65535, 1));
    c.toggle("t", 0);
    c.toggle("t", 0);
    assert_eq!((c.session_id(), c.split_id()), (65535, 2));
    let step = c.new_session();
    assert_eq!(
        step,
        Step { action: Action::Nothing, error: Some(SessionError::SessionsExhausted) }
    );
    assert_eq!((c.session_id(), c.split_id()), (65535, 2));
}

#[test]
fn ids_never_go_back() {
    let mut c = controller("MS3", 2);
    let row = row_response(&[1, 2]);
    let mut before = (c.session_id(), c.split_id());
    let mut seed: u32 = 12345;
    for _ in 0..5000 {
        seed = seed.wrapping_mul(1_103_515_245).wrapping_add(12345);
        let was_logging = c.is_logging();
        match (seed >> 16) % 6 {
            0 => {
                c.toggle("t", 0);
            }
            1 => {
                c.new_session();
            }
            2 => {
                c.tick(&row);
            }
            3 => {
                c.tick(&[0x00]);
            }
            4 => {
                c.mark(seed);
            }
            _ => {
                c.close();
            }
        }
        let after = (c.session_id(), c.split_id());
        assert!(after >= before);
        if was_logging {
            assert_eq!(after.0, before.0);
            if c.is_logging() {
                assert_eq!(after, before);
            } else {
                assert_eq!(after.1, before.1 + 1);
            }
        }
        before = after;
    }
}

#[test]
fn only_a_failure_of_the_link_ends_the_run() {
    assert!(SessionError::Query(CommandError::Link).ends_run());
    assert!(!SessionError::Query(CommandError::Rejected).ends_run());
    assert!(!SessionError::Query(CommandError::Malformed).ends_run());
    assert!(!SessionError::Query(CommandError::Payload).ends_run());
    assert!(!SessionError::Format(FormatError::SignatureTooLong).ends_run());
    assert!(!SessionError::Format(FormatError::RowSizeTooLarge).ends_run());
    assert!(!SessionError::SplitsExhausted.ends_run());
    assert!(!SessionError::SessionsExhausted.ends_run());
    assert!(!SessionError::FileFull.ends_run());
}

#[test]
fn pacing_leaves_room_for_the_protocol() {
    assert_eq!(PROTOCOL_OVERHEAD_MS, 20);
    assert_eq!(pacing_interval_ms(15), 47);
    assert_eq!(pacing_interval_ms(1), 980);
    assert_eq!(pacing_interval_ms(2), 480);
    assert_eq!(pacing_interval_ms(3), 314);
    assert_eq!(pacing_interval_ms(10), 80);
    assert_eq!(pacing_interval_ms(30), 14);
    assert_eq!(pacing_interval_ms(49), 1);
    assert_eq!(pacing_interval_ms(50), 0);
    assert_eq!(pacing_interval_ms(51), 0);
    assert_eq!(pacing_interval_ms(1000), 0);
    assert_eq!(pacing_interval_ms(u16::MAX), 0);
    assert_eq!(pacing_interval_ms(0), u64::MAX);
}

#[test]
fn pacing_is_the_rounded_up_period_less_the_overhead() {
    for rate in 0..=u16::MAX {
        let in_floats = (1000_f32 / rate as f32 - 20_f32).ceil() as u64;
        assert_eq!(pacing_interval_ms(rate), in_floats, "at rate {}", rate);
    }
}
