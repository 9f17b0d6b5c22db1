use sensorlog::acquisition::{
    Acquisition, EndpointKind, FetchOutcome, LoopStep, SessionEnd, MAX_CONSECUTIVE_ERRORS,
};
use sensorlog::checksum::calculate_checksum;
use sensorlog::frame::{decode_accelerometer, decode_temp_pressure, encode_frame, DecodeError, SensorData};
use sensorlog::lifecycle::{
    greeting_deadline, greeting_step, report_line, sleep_slice, total_packets, Backoff, ConnectError,
    GreetingRead, GreetingStep, Schedule, Worker,
};
use sensorlog::reader::{ExactReader, IoErrorKind, ReadError, ReadStep};
use sensorlog::render::{format_data, render_record};
use sensorlog::stats::{Counters, ServerStats};
use sensorlog::temperature::temperature_text;
use std::sync::atomic::Ordering;

fn temp_frame() -> Vec<u8> {
    let mut f = vec![0x00, 0x06, 0x0A, 0x24, 0x18, 0x1E, 0x40, 0x00, 0x41, 0xBC, 0x00, 0x00, 0x03, 0xF5];
    let c = calculate_checksum(&f);
    f.push(c);
    f
}

fn accel_frame() -> Vec<u8> {
    let mut f = Vec::new();
    f.extend_from_slice(&1800000000000000u64.to_be_bytes());
    f.extend_from_slice(&100i32.to_be_bytes());
    f.extend_from_slice(&(-200i32).to_be_bytes());
    f.extend_from_slice(&300i32.to_be_bytes());
    let c = calculate_checksum(&f);
    f.push(c);
    f
}

#[test]
fn valid_temp_pressure_frame_is_logged() {
    let frame = temp_frame();
    assert_eq!(frame[14], 0x9f);
    let rec = decode_temp_pressure(&frame).unwrap();
    assert_eq!(
        rec,
        SensorData::TempPressure { timestamp: 1700000000000000, temperature_bits: 0x41BC0000, pressure: 1013 }
    );
    let mut acq = Acquisition::new();
    let verdict = acq.on_outcome(&FetchOutcome::Decoded(rec), false);
    assert_eq!(verdict.step, LoopStep::Write(rec));
    assert_eq!(verdict.delta.packets_received, 1);
    let stats = ServerStats::new();
    stats.add(&verdict.delta);
    assert_eq!(stats.packets_received.load(Ordering::Relaxed), 1);
    let line = format_data(&rec);
    assert_eq!(line, "2023-11-14 22:13:20 [S1] temperature=23.50C pressure=1013\n");
}

#[test]
fn corrupt_checksum_abandons_session() {
    let mut frame = temp_frame();
    frame[14] = frame[14].wrapping_add(1);
    let err = decode_temp_pressure(&frame).unwrap_err();
    assert_eq!(err, DecodeError::ChecksumMismatch { calculated: 0x9f, received: 0xa0 });
    let mut acq = Acquisition::new();
    let verdict = acq.on_outcome(&FetchOutcome::Rejected(err), false);
    assert_eq!(verdict.step, LoopStep::End(SessionEnd::Desync));
    assert_eq!(verdict.delta.sync_resets, 1);
    assert_eq!(verdict.delta.checksum_errors, 1);
    assert_eq!(verdict.delta.packets_received, 0);
    let mut worker = Worker::new();
    let next = worker.on_session_end(SessionEnd::Desync);
    assert_eq!(next.delta.reconnections, 1);
    assert_eq!(next.wait_ms, 20);
}

#[test]
fn accelerometer_frame_line() {
    let frame = accel_frame();
    let rec = decode_accelerometer(&frame).unwrap();
    assert_eq!(rec, SensorData::Accelerometer { timestamp: 1800000000000000, x: 100, y: -200, z: 300 });
    let line = render_record(&rec).unwrap();
    assert_eq!(line, "2027-01-15 08:00:00 [S2] x=100 y=-200 z=300\n");
}

#[test]
fn silent_server_stalls() {
    let mut acq = Acquisition::new();
    let timeout = ReadError::Timeout { got: 0, wanted: 15 };
    let verdict = acq.on_outcome(&FetchOutcome::ReadFailed(timeout), true);
    assert_eq!(verdict.step, LoopStep::End(SessionEnd::Stalled));
    assert_eq!(verdict.delta.timeout_errors, 1);
}

#[test]
fn timeouts_reach_error_threshold() {
    let mut acq = Acquisition::new();
    let timeout = FetchOutcome::ReadFailed(ReadError::Timeout { got: 3, wanted: 21 });
    assert_eq!(acq.on_outcome(&timeout, false).step, LoopStep::Continue);
    assert_eq!(acq.on_outcome(&timeout, false).step, LoopStep::Continue);
    assert_eq!(acq.consecutive_errors(), MAX_CONSECUTIVE_ERRORS - 1);
    assert_eq!(acq.on_outcome(&timeout, false).step, LoopStep::End(SessionEnd::TooManyErrors));
}

#[test]
fn success_resets_error_count() {
    let mut acq = Acquisition::new();
    let closed = FetchOutcome::ReadFailed(ReadError::PeerClosed);
    let bad_time = FetchOutcome::Rejected(DecodeError::InvalidTimestamp);
    let rec = SensorData::Accelerometer { timestamp: 0, x: 1, y: 2, z: 3 };
    assert_eq!(acq.on_outcome(&closed, false).delta, Counters::zero());
    assert_eq!(acq.on_outcome(&bad_time, false).step, LoopStep::Continue);
    acq.on_outcome(&FetchOutcome::Decoded(rec), false);
    assert_eq!(acq.consecutive_errors(), 0);
}

#[test]
fn session_counts_match_outcomes() {
    let rec = SensorData::Accelerometer { timestamp: 5, x: 0, y: 0, z: 0 };
    let outcomes = vec![
        FetchOutcome::Decoded(rec),
        FetchOutcome::ReadFailed(ReadError::Timeout { got: 0, wanted: 21 }),
        FetchOutcome::Decoded(rec),
        FetchOutcome::Decoded(rec),
        FetchOutcome::Rejected(DecodeError::ChecksumMismatch { calculated: 1, received: 2 }),
        FetchOutcome::Decoded(rec),
        FetchOutcome::Rejected(DecodeError::ChecksumMismatch { calculated: 1, received: 2 }),
    ];
    let stats = ServerStats::new();
    let mut acq = Acquisition::new();
    for o in &outcomes {
        let v = acq.on_outcome(o, false);
        stats.add(&v.delta);
        if let LoopStep::End(_) = v.step {
            break;
        }
    }
    let snap = stats.snapshot();
    assert_eq!(snap.packets_received, 3);
    assert_eq!(snap.sync_resets, 1);
    assert_eq!(snap.timeout_errors, 1);
}

#[test]
fn connection_refused_backoff_grows_to_ceiling() {
    let mut worker = Worker::new();
    let mut waits = Vec::new();
    for _ in 0..8 {
        let r = worker.on_connect_failed();
        assert_eq!(r.delta.connection_errors, 1);
        assert_eq!(r.delta.reconnections, 1);
        waits.push(r.wait_ms);
    }
    assert_eq!(waits, vec![20, 40, 80, 160, 320, 640, 1000, 1000]);
    worker.on_connected();
    assert_eq!(worker.on_connect_failed().wait_ms, 20);
    assert_eq!(sleep_slice(1000), 100);
    assert_eq!(sleep_slice(40), 40);
}

#[test]
fn backoff_doubles_and_resets() {
    let mut b = Backoff::new();
    assert_eq!(b.current(), 20);
    b.on_failure();
    assert_eq!(b.current(), 40);
    b.reset();
    assert_eq!(b.current(), 20);
}

#[test]
fn reader_assembles_chunks_in_order() {
    let mut r = ExactReader::new(5);
    assert_eq!(r.check_deadline(false), None);
    assert_eq!(r.on_chunk(b"Hel"), ReadStep::NeedMore);
    assert_eq!(r.remaining(), 2);
    assert_eq!(r.on_error(IoErrorKind::WouldBlock, false), ReadStep::Retry);
    assert_eq!(r.on_error(IoErrorKind::Interrupted, true), ReadStep::Retry);
    assert_eq!(r.on_chunk(b"lo"), ReadStep::Complete);
    assert_eq!(r.into_bytes(), b"Hello".to_vec());
}

#[test]
fn reader_timeout_carries_partial_count() {
    let mut r = ExactReader::new(15);
    r.on_chunk(&[1, 2, 3, 4]);
    assert_eq!(r.check_deadline(true), Some(ReadError::Timeout { got: 4, wanted: 15 }));
    assert_eq!(
        r.on_error(IoErrorKind::TimedOut, true),
        ReadStep::Failed(ReadError::Timeout { got: 4, wanted: 15 })
    );
    assert_eq!(r.on_error(IoErrorKind::Other, false), ReadStep::Failed(ReadError::Io));
    assert_eq!(r.on_chunk(&[]), ReadStep::Failed(ReadError::PeerClosed));
}

#[test]
fn encode_then_decode_gives_record_back() {
    let recs = [
        SensorData::TempPressure { timestamp: 1700000000000000, temperature_bits: (-12.25f32).to_bits(), pressure: -5 },
        SensorData::TempPressure { timestamp: 1, temperature_bits: 0, pressure: i16::MIN },
        SensorData::Accelerometer { timestamp: 0, x: i32::MIN, y: -1, z: i32::MAX },
    ];
    for rec in recs.iter() {
        let frame = encode_frame(rec);
        let kind = match rec {
            SensorData::TempPressure { .. } => EndpointKind::TempPressure,
            SensorData::Accelerometer { .. } => EndpointKind::Accelerometer,
        };
        assert_eq!(frame.len(), kind.frame_len());
        assert_eq!(kind.decode(&frame), Ok(*rec));
    }
}

#[test]
fn unrepresentable_timestamp_is_rejected() {
    let mut f = vec![0x7f, 0xff, 0xff, 0xff, 0xff, 0xff, 0xff, 0xff, 0, 0, 0, 1, 0, 0, 0, 2, 0, 0, 0, 3];
    let c = calculate_checksum(&f);
    f.push(c);
    assert_eq!(decode_accelerometer(&f), Err(DecodeError::InvalidTimestamp));
    let rec = SensorData::Accelerometer { timestamp: i64::MAX, x: 0, y: 0, z: 0 };
    assert_eq!(render_record(&rec), None);
    let rec = SensorData::Accelerometer { timestamp: -1, x: 0, y: 0, z: 0 };
    assert_eq!(render_record(&rec), None);
    let mut g = vec![0xff; 20];
    let c = calculate_checksum(&g);
    g.push(c);
    assert_eq!(decode_accelerometer(&g), Err(DecodeError::InvalidTimestamp));
}

#[test]
fn greeting_decisions() {
    assert_eq!(greeting_step(GreetingRead::Bytes(8)), GreetingStep::Authenticated);
    assert_eq!(greeting_step(GreetingRead::Bytes(0)), GreetingStep::Wait);
    assert_eq!(greeting_step(GreetingRead::Error(IoErrorKind::WouldBlock)), GreetingStep::Wait);
    assert_eq!(
        greeting_step(GreetingRead::Error(IoErrorKind::Other)),
        GreetingStep::Failed(ConnectError::HandshakeFailed)
    );
    assert_eq!(greeting_deadline(true), Some(ConnectError::NoGreeting));
    assert_eq!(greeting_deadline(false), None);
}

#[test]
fn schedule_flushes_and_reports_on_time() {
    let mut s = Schedule::new(0);
    let a = s.tick(500);
    assert!(!a.flush && !a.report);
    let a = s.tick(5000);
    assert!(a.flush && !a.report);
    let a = s.tick(9500);
    assert!(!a.flush && !a.report);
    let a = s.tick(10000);
    assert!(a.flush && a.report);
}

#[test]
fn report_line_names_counters() {
    let mut s1 = Counters::zero();
    s1.packets_received = 12;
    s1.checksum_errors = 1;
    s1.reconnections = 2;
    s1.sync_resets = 1;
    let mut s2 = Counters::zero();
    s2.packets_received = 7;
    assert_eq!(
        report_line(&s1, &s2),
        "[STATS] S1: 12 ok, 1 csum_err, 2 reconn, 1 sync | S2: 7 ok, 0 csum_err, 0 reconn, 0 sync"
    );
    s2.packets_received = u64::MAX;
    assert_eq!(total_packets(&s1, &s2), u64::MAX as u128 + 12);
}

#[test]
fn temperature_text_matches_two_place_formatting() {
    let samples: Vec<f32> = vec![
        0.0, -0.0, 23.5, 25.5, -273.15, 1000.0, 0.125, 0.375, 0.625, 2.5, 1.005, -0.001, 0.004999,
        0.005, 1e-40, -1e-45, 3.4028235e38, -3.4028235e38, 16777216.0, 123456.78, 0.1, 99.995,
        f32::INFINITY, f32::NEG_INFINITY, f32::NAN, f32::MIN_POSITIVE,
    ];
    for v in samples {
        assert_eq!(temperature_text(v.to_bits()), format!("{:.2}", v), "value {:e}", v);
    }
    let mut bits: u32 = 0x3c00_0000;
    while bits < 0x4300_0000 {
        let v = f32::from_bits(bits);
        assert_eq!(temperature_text(bits), format!("{:.2}", v), "bits {:#x}", bits);
        bits += 0x1_2345;
    }
}

#[test]
fn temp_pressure_timestamp_too_large() {
    let mut data = Vec::new();
    data.extend_from_slice(&i64::MAX.to_be_bytes());
    data.extend_from_slice(&23.5f32.to_be_bytes());
    data.extend_from_slice(&1013i16.to_be_bytes());
    let c = calculate_checksum(&data);
    data.push(c);
    assert_eq!(decode_temp_pressure(&data), Err(DecodeError::InvalidTimestamp));
}
