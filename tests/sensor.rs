use sensorlog::checksum::{calculate_checksum, verify_checksum};
use sensorlog::frame::SensorData;
use sensorlog::render::format_data;
use sensorlog::stats::ServerStats;
use std::sync::atomic::{AtomicBool, AtomicU64, Ordering};

fn render(data: &SensorData) -> String {
    format_data(data)
}

#[test]
fn test_calculate_checksum() {
    let data = vec![1, 2, 3, 4, 5];
    assert_eq!(calculate_checksum(&data), 15);

    let data2 = vec![255, 255];
    assert_eq!(calculate_checksum(&data2), (510 % 256) as u8);
}

#[test]
fn test_calculate_checksum_empty() {
    let data: Vec<u8> = vec![];
    assert_eq!(calculate_checksum(&data), 0);
}

#[test]
fn test_calculate_checksum_large() {
    let data = vec![255u8; 1000];
    let expected = ((255u32 * 1000) % 256) as u8;
    assert_eq!(calculate_checksum(&data), expected);
}

#[test]
fn test_verify_checksum_valid() {
    let data = vec![1, 2, 3, 4, 5];
    let checksum = calculate_checksum(&data);
    assert!(verify_checksum(&data, checksum));
}

#[test]
fn test_verify_checksum_invalid() {
    let data = vec![1, 2, 3, 4, 5];
    assert!(!verify_checksum(&data, 99));
}

#[test]
fn test_verify_checksum_empty() {
    let data: Vec<u8> = vec![];
    assert!(verify_checksum(&data, 0));
}

#[test]
fn test_format_data_temp_pressure() {
    let data = SensorData::TempPressure {
        timestamp: 1700000000000000,
        temperature_bits: 25.5f32.to_bits(),
        pressure: 1013,
    };

    let formatted = render(&data);
    assert!(formatted.contains("[S1]"));
    assert!(formatted.contains("temperature=25.50C"));
    assert!(formatted.contains("pressure=1013"));
    assert!(formatted.ends_with('\n'));
}

#[test]
fn test_format_data_accelerometer() {
    let data = SensorData::Accelerometer { timestamp: 1700000000000000, x: 100, y: -200, z: 300 };

    let formatted = render(&data);
    assert!(formatted.contains("[S2]"));
    assert!(formatted.contains("x=100"));
    assert!(formatted.contains("y=-200"));
    assert!(formatted.contains("z=300"));
    assert!(formatted.ends_with('\n'));
}

#[test]
fn test_sensor_data_clone() {
    let data = SensorData::TempPressure {
        timestamp: 1000000,
        temperature_bits: 25.5f32.to_bits(),
        pressure: 1013,
    };

    let cloned = data.clone();
    match (data, cloned) {
        (
            SensorData::TempPressure { temperature_bits: t1, pressure: p1, .. },
            SensorData::TempPressure { temperature_bits: t2, pressure: p2, .. },
        ) => {
            assert_eq!(f32::from_bits(t1), f32::from_bits(t2));
            assert_eq!(p1, p2);
        }
        _ => panic!("Clone mismatch"),
    }
}

#[test]
fn test_sensor_data_clone_accelerometer() {
    let data = SensorData::Accelerometer { timestamp: 1000000, x: 1, y: 2, z: 3 };

    let cloned = data.clone();
    match (data, cloned) {
        (
            SensorData::Accelerometer { x: x1, y: y1, z: z1, .. },
            SensorData::Accelerometer { x: x2, y: y2, z: z2, .. },
        ) => {
            assert_eq!(x1, x2);
            assert_eq!(y1, y2);
            assert_eq!(z1, z2);
        }
        _ => panic!("Clone mismatch"),
    }
}

#[test]
fn test_sensor_data_debug() {
    let data = SensorData::TempPressure {
        timestamp: 1000000,
        temperature_bits: 25.5f32.to_bits(),
        pressure: 1013,
    };
    let debug_str = format!("{:?}", data);
    assert!(debug_str.contains("TempPressure"));

    let data2 = SensorData::Accelerometer { timestamp: 1000000, x: 1, y: 2, z: 3 };
    let debug_str2 = format!("{:?}", data2);
    assert!(debug_str2.contains("Accelerometer"));
}

#[test]
fn test_server_stats_new() {
    let stats = ServerStats::new();
    assert_eq!(stats.packets_received.load(Ordering::Relaxed), 0);
    assert_eq!(stats.checksum_errors.load(Ordering::Relaxed), 0);
    assert_eq!(stats.timeout_errors.load(Ordering::Relaxed), 0);
    assert_eq!(stats.connection_errors.load(Ordering::Relaxed), 0);
    assert_eq!(stats.reconnections.load(Ordering::Relaxed), 0);
    assert_eq!(stats.sync_resets.load(Ordering::Relaxed), 0);
}

#[test]
fn test_server_stats_all_fields() {
    let stats = ServerStats::new();

    stats.packets_received.fetch_add(10, Ordering::Relaxed);
    stats.checksum_errors.fetch_add(2, Ordering::Relaxed);
    stats.timeout_errors.fetch_add(3, Ordering::Relaxed);
    stats.connection_errors.fetch_add(4, Ordering::Relaxed);
    stats.reconnections.fetch_add(5, Ordering::Relaxed);
    stats.sync_resets.fetch_add(1, Ordering::Relaxed);

    assert_eq!(stats.packets_received.load(Ordering::Relaxed), 10);
    assert_eq!(stats.checksum_errors.load(Ordering::Relaxed), 2);
    assert_eq!(stats.timeout_errors.load(Ordering::Relaxed), 3);
    assert_eq!(stats.connection_errors.load(Ordering::Relaxed), 4);
    assert_eq!(stats.reconnections.load(Ordering::Relaxed), 5);
    assert_eq!(stats.sync_resets.load(Ordering::Relaxed), 1);
}

#[test]
fn test_server_stats_debug() {
    let stats = ServerStats::new();
    let debug_str = format!("{:?}", stats);
    assert!(debug_str.contains("ServerStats"));
}

#[test]
fn test_server_stats_default() {
    let stats: ServerStats = Default::default();
    assert_eq!(stats.packets_received.load(Ordering::Relaxed), 0);
}

#[test]
fn test_atomic_operations() {
    let running = AtomicBool::new(true);
    assert!(running.load(Ordering::SeqCst));

    running.store(false, Ordering::SeqCst);
    assert!(!running.load(Ordering::SeqCst));
}

#[test]
fn test_atomic_u64_operations() {
    let counter = AtomicU64::new(0);
    assert_eq!(counter.load(Ordering::Relaxed), 0);

    counter.fetch_add(5, Ordering::Relaxed);
    assert_eq!(counter.load(Ordering::Relaxed), 5);

    counter.store(100, Ordering::Relaxed);
    assert_eq!(counter.load(Ordering::Relaxed), 100);
}

#[test]
fn test_extreme_temperature_values() {
    let cold = SensorData::TempPressure {
        timestamp: 1000000,
        temperature_bits: (-273.15f32).to_bits(),
        pressure: 0,
    };
    let formatted = render(&cold);
    assert!(formatted.contains("-273.15"));

    let hot = SensorData::TempPressure {
        timestamp: 1000000,
        temperature_bits: 1000.0f32.to_bits(),
        pressure: i16::MAX,
    };
    let formatted = render(&hot);
    assert!(formatted.contains("1000.00"));
}

#[test]
fn test_extreme_accelerometer_values() {
    let data = SensorData::Accelerometer { timestamp: 1000000, x: i32::MAX, y: i32::MIN, z: 0 };
    let formatted = render(&data);
    assert!(formatted.contains(&i32::MAX.to_string()));
    assert!(formatted.contains(&i32::MIN.to_string()));
}
