use sensor_telemetry::store::{TemperatureReading, TemperatureStats, TemperatureStore};
use sensor_telemetry::temperature::Temperature;

#[test]
fn store_basic_operations() {
    let mut store = TemperatureStore::new(5);

    assert!(store.is_empty());
    assert_eq!(store.len(), 0);
    assert!(store.get_latest().is_none());
    assert!(store.calculate_stats().is_none());

    let reading = TemperatureReading::new(Temperature::new(20_000));
    store.add_reading(reading);

    assert_eq!(store.len(), 1);
    assert!(!store.is_empty());

    let latest = store.get_latest().unwrap();
    assert_eq!(latest.temperature.millicelsius, 20_000);
}

#[test]
fn store_circular_buffer() {
    let mut store = TemperatureStore::new(3);

    // Add more readings than capacity
    for i in 0..5 {
        let reading = TemperatureReading::new(Temperature::new(i * 10_000));
        store.add_reading(reading);
    }

    assert_eq!(store.len(), 3);

    let readings = store.get_all();
    assert_eq!(readings.len(), 3);

    // Should contain temperatures 20.0, 30.0, 40.0 (the last 3)
    assert_eq!(readings[0].temperature.millicelsius, 20_000);
    assert_eq!(readings[1].temperature.millicelsius, 30_000);
    assert_eq!(readings[2].temperature.millicelsius, 40_000);
}

#[test]
fn store_statistics() {
    let mut store = TemperatureStore::new(10);

    let temps = vec![10_000, 20_000, 30_000, 40_000, 50_000];
    for temp in temps {
        let reading = TemperatureReading::new(Temperature::new(temp));
        store.add_reading(reading);
    }

    let stats = store.calculate_stats().unwrap();
    assert_eq!(stats.min.millicelsius, 10_000);
    assert_eq!(stats.max.millicelsius, 50_000);
    assert_eq!(stats.average.millicelsius, 30_000);
    assert_eq!(stats.count, 5);
}

#[test]
fn temperature_reading_creation() {
    let temp = Temperature::new(25_000);
    let reading = TemperatureReading::new(temp);

    assert_eq!(reading.temperature.millicelsius, 25_000);
    assert!(reading.timestamp > 0);

    let custom_reading = TemperatureReading::with_timestamp(temp, 1234567890);
    assert_eq!(custom_reading.timestamp, 1234567890);
}

#[test]
fn store_of_three_keeps_the_last_three_of_five() {
    let mut store = TemperatureStore::new(3);
    for (at, value) in [10_000, 20_000, 30_000, 40_000, 50_000].into_iter().enumerate() {
        store.add_reading(TemperatureReading::with_timestamp(Temperature::new(value), at as u64));
    }
    let held = store.get_all();
    assert_eq!(
        held,
        vec![
            TemperatureReading::with_timestamp(Temperature::new(30_000), 2),
            TemperatureReading::with_timestamp(Temperature::new(40_000), 3),
            TemperatureReading::with_timestamp(Temperature::new(50_000), 4),
        ]
    );
    assert_eq!(
        store.calculate_stats(),
        Some(TemperatureStats {
            min: Temperature::new(30_000),
            max: Temperature::new(50_000),
            average: Temperature::new(40_000),
            count: 3,
        })
    );
}

#[test]
fn store_keeps_the_last_n_for_every_small_capacity() {
    for capacity in 0..6usize {
        for length in 0..12usize {
            let mut store = TemperatureStore::new(capacity);
            for i in 0..length {
                store.add_reading(TemperatureReading::with_timestamp(Temperature::new(i as i32), i as u64));
            }
            let kept = length.min(capacity);
            assert_eq!(store.len(), kept);
            let held = store.get_all();
            for (at, reading) in held.iter().enumerate() {
                assert_eq!(reading.timestamp as usize, length - kept + at);
            }
        }
    }
}

#[test]
fn store_without_room_stays_empty() {
    let mut store = TemperatureStore::new(0);
    store.add_reading(TemperatureReading::with_timestamp(Temperature::new(1), 1));
    assert!(store.is_empty());
    assert!(store.get_latest().is_none());
    assert!(store.calculate_stats().is_none());
}

#[test]
fn store_statistics_match_a_direct_computation() {
    let values = [-7_001, 12, 3_999, -2, 2_147_483_647, -2_147_483_648, 5];
    let mut store = TemperatureStore::new(16);
    for (at, value) in values.into_iter().enumerate() {
        store.add_reading(TemperatureReading::with_timestamp(Temperature::new(value), at as u64));
    }
    let stats = store.calculate_stats().unwrap();
    let sum: i64 = values.iter().map(|v| *v as i64).sum();
    assert_eq!(stats.min.millicelsius, *values.iter().min().unwrap());
    assert_eq!(stats.max.millicelsius, *values.iter().max().unwrap());
    assert_eq!(stats.average.millicelsius as i64, sum.div_euclid(values.len() as i64));
    assert_eq!(stats.count, values.len());
}

#[test]
fn store_mean_rounds_down() {
    let mut store = TemperatureStore::new(4);
    store.add_reading(TemperatureReading::with_timestamp(Temperature::new(1), 0));
    store.add_reading(TemperatureReading::with_timestamp(Temperature::new(2), 1));
    assert_eq!(store.calculate_stats().unwrap().average.millicelsius, 1);
    store.clear();
    store.add_reading(TemperatureReading::with_timestamp(Temperature::new(-1), 0));
    store.add_reading(TemperatureReading::with_timestamp(Temperature::new(-2), 1));
    assert_eq!(store.calculate_stats().unwrap().average.millicelsius, -2);
}

#[test]
fn store_zeroed_stats_when_empty() {
    let store = TemperatureStore::new(4);
    let stats = store.get_stats();
    assert_eq!(
        stats,
        TemperatureStats {
            min: Temperature::new(0),
            max: Temperature::new(0),
            average: Temperature::new(0),
            count: 0,
        }
    );
    assert_eq!(store.reading_count(), 0);
}

#[test]
fn store_recent_readings() {
    let mut store = TemperatureStore::new(5);
    for i in 0..4 {
        store.add_reading(TemperatureReading::with_timestamp(Temperature::new(i), i as u64));
    }
    let last_two = store.get_recent_readings(2);
    assert_eq!(last_two.len(), 2);
    assert_eq!(last_two[0].timestamp, 2);
    assert_eq!(last_two[1].timestamp, 3);
    assert_eq!(store.get_recent_readings(0).len(), 0);
    assert_eq!(store.get_recent_readings(4), store.get_all());
    assert_eq!(store.get_recent_readings(100), store.get_all());
}

#[test]
fn store_clear_empties() {
    let mut store = TemperatureStore::new(2);
    store.add_reading(TemperatureReading::with_timestamp(Temperature::new(5), 1));
    store.clear();
    assert!(store.is_empty());
    store.add_reading(TemperatureReading::with_timestamp(Temperature::new(6), 2));
    store.add_reading(TemperatureReading::with_timestamp(Temperature::new(7), 3));
    store.add_reading(TemperatureReading::with_timestamp(Temperature::new(8), 4));
    assert_eq!(store.get_all().len(), 2);
    assert_eq!(store.get_latest().unwrap().temperature.millicelsius, 8);
}
