use pty_tabs::pump::{PumpAction, PumpEvent, ReaderPump, POLL_INTERVAL_MS};

#[test]
fn data_is_buffered_and_emitted_under_the_tab() {
    let mut p = ReaderPump::new(7);
    match p.step(PumpEvent::Read(b"ab".to_vec())) {
        PumpAction::Emit(tab, data) => {
            assert_eq!(tab, 7);
            assert_eq!(data, b"ab".to_vec());
        }
        _ => panic!("expected an emit"),
    }
    match p.step(PumpEvent::Read(b"cd".to_vec())) {
        PumpAction::Emit(tab, data) => {
            assert_eq!(tab, 7);
            assert_eq!(data, b"cd".to_vec());
        }
        _ => panic!("expected an emit"),
    }
    assert_eq!(p.output(), &b"abcd".to_vec());
    assert!(!p.is_stopped());
}

#[test]
fn empty_read_waits_one_millisecond() {
    let mut p = ReaderPump::new(1);
    assert!(matches!(p.step(PumpEvent::Read(Vec::new())), PumpAction::Wait(1)));
    assert_eq!(POLL_INTERVAL_MS, 1);
    assert!(p.output().is_empty());
}

#[test]
fn end_of_stream_stops_for_good() {
    let mut p = ReaderPump::new(2);
    p.step(PumpEvent::Read(b"x".to_vec()));
    assert!(matches!(p.step(PumpEvent::EndOfStream), PumpAction::Stop));
    assert!(p.is_stopped());
    assert!(matches!(p.step(PumpEvent::Read(b"y".to_vec())), PumpAction::Stop));
    assert_eq!(p.output(), &b"x".to_vec());
}

#[test]
fn read_failure_stops_the_pump() {
    let mut p = ReaderPump::new(3);
    assert!(matches!(p.step(PumpEvent::ReadFailed), PumpAction::Stop));
    assert!(p.is_stopped());
}

#[test]
fn stop_request_stops_the_pump() {
    let mut p = ReaderPump::new(4);
    assert!(matches!(p.step(PumpEvent::StopRequested), PumpAction::Stop));
    assert!(matches!(p.step(PumpEvent::Read(b"z".to_vec())), PumpAction::Stop));
    assert!(p.output().is_empty());
    assert_eq!(p.tab(), 4);
}
