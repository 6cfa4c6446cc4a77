use sensor_telemetry::embedded::{
    calculate_sample_rate, celsius_to_adc_value, validate_buffer_size, EmbeddedCommand, EmbeddedError,
    EmbeddedProtocolHandler, EmbeddedResponse, EmbeddedTemperatureReading, EmbeddedTemperatureStats,
    EmbeddedTemperatureStore, READING_BUFFER_SIZE, SAMPLE_RATE_HZ, SYSTEM_CLOCK_HZ, TEMP_CRITICAL,
    TEMP_THRESHOLD_HIGH, TEMP_THRESHOLD_LOW, TIMER_DIVISOR,
};
use sensor_telemetry::fixed_text::{create_status_string, format_temperature_reading};
use sensor_telemetry::temperature::Temperature;

#[test]
fn test_embedded_store_basic_operations() {
    let mut store: EmbeddedTemperatureStore<4> = EmbeddedTemperatureStore::new();

    assert!(store.is_empty());
    assert_eq!(store.len(), 0);
    assert_eq!(store.capacity(), 4);
    assert!(store.get_latest().is_none());

    // Add a reading
    let reading = EmbeddedTemperatureReading::new(Temperature::new(25_000), 1000);
    store.add_reading(reading).unwrap();

    assert!(!store.is_empty());
    assert_eq!(store.len(), 1);
    assert_eq!(store.total_readings(), 1);

    let latest = store.get_latest().unwrap();
    assert_eq!(latest.temperature.millicelsius, 25_000);
    assert_eq!(latest.timestamp, 1000);
}

#[test]
fn test_embedded_store_circular_buffer() {
    let mut store: EmbeddedTemperatureStore<3> = EmbeddedTemperatureStore::new();

    // Fill the buffer
    for i in 0..3 {
        let reading = EmbeddedTemperatureReading::new(Temperature::new(20_000 + i as i32 * 1_000), 1000 + i);
        store.add_reading(reading).unwrap();
    }

    assert_eq!(store.len(), 3);
    assert!(store.is_full());
    assert_eq!(store.total_readings(), 3);

    // Add one more - should trigger circular buffer behavior
    let reading = EmbeddedTemperatureReading::new(Temperature::new(25_000), 2000);
    store.add_reading(reading).unwrap();

    assert_eq!(store.len(), 3);
    assert_eq!(store.total_readings(), 4);

    // Should contain readings 21.0, 22.0, 25.0 (oldest removed)
    let readings = store.get_readings();
    assert_eq!(readings[0].temperature.millicelsius, 21_000);
    assert_eq!(readings[1].temperature.millicelsius, 22_000);
    assert_eq!(readings[2].temperature.millicelsius, 25_000);
}

#[test]
fn test_embedded_store_statistics() {
    let mut store: EmbeddedTemperatureStore<5> = EmbeddedTemperatureStore::new();

    // Test empty store
    let stats = store.get_stats();
    assert_eq!(stats.count, 0);

    // Add some readings
    let temps = [10_000, 20_000, 30_000, 40_000, 50_000];
    for (i, &temp) in temps.iter().enumerate() {
        let reading = EmbeddedTemperatureReading::new(Temperature::new(temp), 1000 + i as u32);
        store.add_reading(reading).unwrap();
    }

    let stats = store.get_stats();
    assert_eq!(stats.min.millicelsius, 10_000);
    assert_eq!(stats.max.millicelsius, 50_000);
    assert_eq!(stats.average.millicelsius, 30_000);
    assert_eq!(stats.count, 5);
}

#[test]
fn test_const_configuration() {
    // Test compile-time constants
    assert_eq!(SYSTEM_CLOCK_HZ, 16_000_000);
    assert_eq!(SAMPLE_RATE_HZ, 10);
    assert_eq!(TIMER_DIVISOR, 1_600_000);
    assert_eq!(READING_BUFFER_SIZE, 64);

    // Test const functions
    assert_eq!(calculate_sample_rate(100, 16_000_000), 160_000);
    assert_eq!(validate_buffer_size(32), 32);

    // Test temperature thresholds
    assert!(TEMP_THRESHOLD_LOW < TEMP_THRESHOLD_HIGH);
    assert!(TEMP_THRESHOLD_HIGH < TEMP_CRITICAL);
}

#[test]
fn test_protocol_handler() {
    let mut handler: EmbeddedProtocolHandler<8> = EmbeddedProtocolHandler::new();
    handler.init(1000);

    // Test GetStatus command
    let response = handler.process_command(EmbeddedCommand::GetStatus, 2000);
    if let EmbeddedResponse::Status { uptime_seconds, reading_count, sample_rate, buffer_usage } = response {
        assert_eq!(uptime_seconds, 1000);
        assert_eq!(reading_count, 0);
        assert_eq!(sample_rate, SAMPLE_RATE_HZ);
        assert_eq!(buffer_usage, 0);
    } else {
        panic!("Expected Status response");
    }

    // Add a reading and test again
    handler.add_reading(Temperature::new(23_500), 1500).unwrap();

    let response = handler.process_command(EmbeddedCommand::GetLatestReading, 2000);
    if let EmbeddedResponse::Reading(reading) = response {
        assert_eq!(reading.temperature.millicelsius, 23_500);
        assert_eq!(reading.timestamp, 1500);
    } else {
        panic!("Expected Reading response");
    }

    // Test reading count
    let response = handler.process_command(EmbeddedCommand::GetReadingCount, 2000);
    if let EmbeddedResponse::ReadingCount(count) = response {
        assert_eq!(count, 1);
    } else {
        panic!("Expected ReadingCount response");
    }

    // Test sample rate setting
    let response = handler.process_command(EmbeddedCommand::SetSampleRate(20), 2000);
    if let EmbeddedResponse::SampleRateSet(rate) = response {
        assert_eq!(rate, 20);
        assert_eq!(handler.get_sample_rate(), 20);
    } else {
        panic!("Expected SampleRateSet response");
    }
}

#[test]
fn test_error_handling() {
    let mut handler: EmbeddedProtocolHandler<2> = EmbeddedProtocolHandler::new();

    // Test no readings error
    let response = handler.process_command(EmbeddedCommand::GetLatestReading, 1000);
    if let EmbeddedResponse::Error(code) = response {
        assert_eq!(code, EmbeddedError::NoReadings.error_code());
    } else {
        panic!("Expected error response");
    }

    // Test invalid sample rate
    let response = handler.process_command(EmbeddedCommand::SetSampleRate(0), 1000);
    if let EmbeddedResponse::Error(code) = response {
        assert_eq!(code, EmbeddedError::InvalidSampleRate.error_code());
    } else {
        panic!("Expected error response");
    }

    let response = handler.process_command(EmbeddedCommand::SetSampleRate(2000), 1000);
    if let EmbeddedResponse::Error(code) = response {
        assert_eq!(code, EmbeddedError::InvalidSampleRate.error_code());
    } else {
        panic!("Expected error response");
    }
}

#[test]
fn test_error_codes() {
    assert_eq!(EmbeddedError::BufferFull.error_code(), 1);
    assert_eq!(EmbeddedError::InvalidSampleRate.error_code(), 2);
    assert_eq!(EmbeddedError::SensorTimeout.error_code(), 3);
    assert_eq!(EmbeddedError::InvalidCommand.error_code(), 4);
    assert_eq!(EmbeddedError::SerializationError.error_code(), 5);
    assert_eq!(EmbeddedError::NoReadings.error_code(), 6);

    assert_eq!(EmbeddedError::BufferFull.description(), "Buffer full");
    assert_eq!(EmbeddedError::NoReadings.description(), "No readings available");
}

#[test]
fn embedded_error_descriptions() {
    assert_eq!(EmbeddedError::InvalidSampleRate.description(), "Invalid sample rate");
    assert_eq!(EmbeddedError::SensorTimeout.description(), "Sensor timeout");
    assert_eq!(EmbeddedError::InvalidCommand.description(), "Invalid command");
    assert_eq!(EmbeddedError::SerializationError.description(), "Serialization error");
}

#[test]
fn embedded_thresholds_are_converter_counts() {
    assert_eq!(celsius_to_adc_value(Temperature::new(5_000)), TEMP_THRESHOLD_LOW);
    assert_eq!(celsius_to_adc_value(Temperature::new(35_000)), TEMP_THRESHOLD_HIGH);
    assert_eq!(celsius_to_adc_value(Temperature::new(50_000)), TEMP_CRITICAL);
    assert_eq!(celsius_to_adc_value(Temperature::new(0)), 0);
    assert_eq!(celsius_to_adc_value(Temperature::new(-40_000)), 0);
    assert_eq!(celsius_to_adc_value(Temperature::new(330_000)), 4095);
    assert_eq!(celsius_to_adc_value(Temperature::new(i32::MAX)), 65_535);
    assert_eq!(calculate_sample_rate(SAMPLE_RATE_HZ, SYSTEM_CLOCK_HZ), TIMER_DIVISOR);
    assert_eq!(calculate_sample_rate(3, 10), 3);
    assert_eq!(validate_buffer_size(READING_BUFFER_SIZE), 64);
    assert_eq!(validate_buffer_size(1), 1);
    assert_eq!(validate_buffer_size(1024), 1024);
}

#[test]
fn embedded_ring_keeps_the_last_n() {
    let mut store: EmbeddedTemperatureStore<3> = EmbeddedTemperatureStore::new();
    for (at, value) in [10_000, 20_000, 30_000, 40_000, 50_000].into_iter().enumerate() {
        assert_eq!(store.add_reading(EmbeddedTemperatureReading::new(Temperature::new(value), at as u32)), Ok(()));
    }
    assert_eq!(
        store.get_readings().to_vec(),
        vec![
            EmbeddedTemperatureReading::new(Temperature::new(30_000), 2),
            EmbeddedTemperatureReading::new(Temperature::new(40_000), 3),
            EmbeddedTemperatureReading::new(Temperature::new(50_000), 4),
        ]
    );
    assert_eq!(
        store.get_stats(),
        EmbeddedTemperatureStats {
            min: Temperature::new(30_000),
            max: Temperature::new(50_000),
            average: Temperature::new(40_000),
            count: 3,
        }
    );
    assert_eq!(store.total_readings(), 5);
    store.clear();
    assert!(store.is_empty());
    assert_eq!(store.total_readings(), 5);
    assert!(!store.is_full());
}

#[test]
fn embedded_ring_without_room_refuses() {
    let mut store: EmbeddedTemperatureStore<0> = EmbeddedTemperatureStore::new();
    assert_eq!(
        store.add_reading(EmbeddedTemperatureReading::new(Temperature::new(1), 1)),
        Err("Storage full")
    );
    assert_eq!(store.len(), 0);
    assert_eq!(store.total_readings(), 1);
    assert!(store.is_full());
    let mut handler: EmbeddedProtocolHandler<0> = EmbeddedProtocolHandler::new();
    assert_eq!(handler.add_reading(Temperature::new(1), 1), Err("Storage full"));
    assert_eq!(
        handler.process_command(EmbeddedCommand::GetStatus, 5),
        EmbeddedResponse::Status { uptime_seconds: 5, reading_count: 1, sample_rate: 10, buffer_usage: 0 }
    );
}

#[test]
fn embedded_status_reports_occupancy_in_percent() {
    let mut handler: EmbeddedProtocolHandler<8> = EmbeddedProtocolHandler::new();
    handler.init(100);
    for second in 0..3 {
        handler.add_reading(Temperature::new(20_000), second).unwrap();
    }
    assert_eq!(
        handler.process_command(EmbeddedCommand::GetStatus, 160),
        EmbeddedResponse::Status { uptime_seconds: 60, reading_count: 3, sample_rate: 10, buffer_usage: 37 }
    );
    // A clock that reads less than the start time gives an uptime of zero.
    assert_eq!(
        handler.process_command(EmbeddedCommand::GetStatus, 99),
        EmbeddedResponse::Status { uptime_seconds: 0, reading_count: 3, sample_rate: 10, buffer_usage: 37 }
    );
    for second in 3..20 {
        handler.add_reading(Temperature::new(20_000), second).unwrap();
    }
    assert_eq!(
        handler.process_command(EmbeddedCommand::GetStatus, 100),
        EmbeddedResponse::Status { uptime_seconds: 0, reading_count: 20, sample_rate: 10, buffer_usage: 100 }
    );
    assert_eq!(handler.process_command(EmbeddedCommand::ClearReadings, 100), EmbeddedResponse::Cleared);
    assert_eq!(handler.get_store().len(), 0);
    assert_eq!(handler.process_command(EmbeddedCommand::GetReadingCount, 100), EmbeddedResponse::ReadingCount(20));
    assert_eq!(
        handler.process_command(EmbeddedCommand::GetLatestReading, 100),
        EmbeddedResponse::Error(6)
    );
}

#[test]
fn embedded_sample_rate_limits() {
    let mut handler: EmbeddedProtocolHandler<2> = EmbeddedProtocolHandler::default();
    assert_eq!(handler.process_command(EmbeddedCommand::SetSampleRate(1), 0), EmbeddedResponse::SampleRateSet(1));
    assert_eq!(
        handler.process_command(EmbeddedCommand::SetSampleRate(1000), 0),
        EmbeddedResponse::SampleRateSet(1000)
    );
    assert_eq!(handler.process_command(EmbeddedCommand::SetSampleRate(1001), 0), EmbeddedResponse::Error(2));
    assert_eq!(handler.get_sample_rate(), 1000);
    handler.add_reading(Temperature::new(-3), 9).unwrap();
    handler.add_reading(Temperature::new(-4), 10).unwrap();
    assert_eq!(
        handler.process_command(EmbeddedCommand::GetStats, 0),
        EmbeddedResponse::Stats(EmbeddedTemperatureStats {
            min: Temperature::new(-4),
            max: Temperature::new(-3),
            average: Temperature::new(-4),
            count: 2,
        })
    );
}

#[test]
fn test_string_formatting() {
    let status = create_status_string(42, 10);
    assert_eq!(status.as_str(), "Readings: 42, Rate: 10 Hz");

    let reading = EmbeddedTemperatureReading::new(Temperature::new(23_500), 1500);
    let formatted = format_temperature_reading(&reading);
    assert_eq!(formatted.as_str(), "Temp: 23.5C @ 1500s");
}

#[test]
fn fixed_lines_at_the_edges() {
    assert_eq!(create_status_string(0, 0).as_str(), "Readings: 0, Rate: 0 Hz");
    assert_eq!(
        create_status_string(2_147_483_647, 4_294_967_295).as_str(),
        "Readings: 2147483647, Rate: -1 Hz"
    );
    assert_eq!(
        create_status_string(2_147_483_648, 1000).as_str(),
        "Readings: -2147483648, Rate: 1000 Hz"
    );
    let line = |millis, second| {
        format_temperature_reading(&EmbeddedTemperatureReading::new(Temperature::new(millis), second))
    };
    assert_eq!(line(0, 0).as_str(), "Temp: 0.0C @ 0s");
    assert_eq!(line(23_999, 7).as_str(), "Temp: 23.9C @ 7s");
    assert_eq!(line(-50, 7).as_str(), "Temp: -0.0C @ 7s");
    assert_eq!(line(-12_345, 4_294_967_295).as_str(), "Temp: -12.3C @ -1s");
    assert_eq!(line(i32::MIN, 2_147_483_648).as_str(), "Temp: -2147483.6C @ -2147483648s");
    assert_eq!(line(i32::MAX, 2_147_483_647).as_str(), "Temp: 2147483.6C @ 2147483647s");
}
