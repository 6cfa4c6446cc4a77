use sensor_telemetry::protocol::{
    Command, MessagePayload, ProtocolError, ProtocolMessage, Response, TemperatureProtocolHandler,
};
use sensor_telemetry::store::TemperatureReading;
use sensor_telemetry::temperature::Temperature;

#[test]
fn test_protocol_versioning() {
    let mut handler = TemperatureProtocolHandler::new();

    // Create message with wrong version
    let message = ProtocolMessage {
        version: 2, // Wrong version
        id: 1,
        payload: MessagePayload::Command(Command::GetStatus),
    };

    let response = handler.process_command(message);

    if let MessagePayload::Response(Response::Error { code, message: msg }) = response.payload {
        assert_eq!(code, 505);
        assert!(msg.contains("version mismatch"));
    } else {
        panic!("Expected version mismatch error");
    }
}

#[test]
fn test_error_responses() {
    let mut handler = TemperatureProtocolHandler::new();

    // Test invalid sensor ID
    let message = handler.create_command(Command::GetReading {
        sensor_id: "nonexistent_sensor".to_string(),
    });

    let response = handler.process_command(message);

    if let MessagePayload::Response(Response::Error { code, message: msg }) = response.payload {
        assert_eq!(code, 404);
        assert!(msg.contains("not found"));
    } else {
        panic!("Expected sensor not found error");
    }

    // Test invalid threshold
    let message = handler.create_command(Command::SetThreshold {
        sensor_id: "temp_01".to_string(),
        min_temp: 30_000,
        max_temp: 20_000, // Invalid: min > max
    });

    let response = handler.process_command(message);

    if let MessagePayload::Response(Response::Error { code, message: msg }) = response.payload {
        assert_eq!(code, 400);
        assert!(msg.contains("Invalid threshold"));
    } else {
        panic!("Expected invalid threshold error");
    }
}

#[test]
fn test_command_processing() {
    let mut handler = TemperatureProtocolHandler::new();

    // Test GetStatus command
    let message = handler.create_command(Command::GetStatus);
    let response = handler.process_command(message);

    if let MessagePayload::Response(Response::Status { active_sensors, uptime_seconds: _, readings_count }) =
        response.payload
    {
        assert_eq!(active_sensors.len(), 3); // We have 3 mock sensors
        assert!(active_sensors.contains(&"temp_01".to_string()));
        assert_eq!(readings_count, 0); // No readings yet
    } else {
        panic!("Expected status response");
    }

    // Test GetReading command
    let message = handler.create_command(Command::GetReading { sensor_id: "temp_01".to_string() });
    let response = handler.process_command(message);

    if let MessagePayload::Response(Response::Reading { sensor_id, temperature, timestamp: _ }) =
        response.payload
    {
        assert_eq!(sensor_id, "temp_01");
        assert!((temperature - 23_500).abs() < 1_000);
    } else {
        panic!("Expected reading response");
    }

    // Test SetThreshold command
    let message = handler.create_command(Command::SetThreshold {
        sensor_id: "temp_01".to_string(),
        min_temp: 15_000,
        max_temp: 35_000,
    });
    let response = handler.process_command(message);

    if let MessagePayload::Response(Response::ThresholdSet { sensor_id, min_temp, max_temp }) =
        response.payload
    {
        assert_eq!(sensor_id, "temp_01");
        assert_eq!(min_temp, 15_000);
        assert_eq!(max_temp, 35_000);
    } else {
        panic!("Expected threshold set response");
    }
}

#[test]
fn test_calibration() {
    let mut handler = TemperatureProtocolHandler::new();

    // Test calibration
    let message = handler.create_command(Command::Calibrate {
        sensor_id: "temp_01".to_string(),
        actual_temp: 25_000,
    });
    let response = handler.process_command(message);

    if let MessagePayload::Response(Response::CalibrationComplete { sensor_id, offset_adjustment }) =
        response.payload
    {
        assert_eq!(sensor_id, "temp_01");
        assert!(offset_adjustment.abs() < 10_000); // Reasonable calibration offset
    } else {
        panic!("Expected calibration complete response");
    }
}

fn answer(handler: &mut TemperatureProtocolHandler, command: Command) -> Response {
    handler.handle_command_at(command, 1_700_000_000, 42)
}

fn error_code(response: &Response) -> Option<u16> {
    match response {
        Response::Error { code, .. } => Some(*code),
        _ => None,
    }
}

#[test]
fn version_two_is_refused_whatever_it_carries() {
    let payloads = vec![
        MessagePayload::Command(Command::GetStatus),
        MessagePayload::Command(Command::GetReading { sensor_id: "temp_01".to_string() }),
        MessagePayload::Command(Command::SetThreshold {
            sensor_id: "temp_01".to_string(),
            min_temp: 1,
            max_temp: 2,
        }),
        MessagePayload::Command(Command::Calibrate { sensor_id: "nobody".to_string(), actual_temp: 0 }),
        MessagePayload::Response(Response::Error { code: 1, message: "x".to_string() }),
    ];
    for payload in payloads {
        let mut handler = TemperatureProtocolHandler::new();
        let reply = handler.process_command_at(ProtocolMessage { version: 2, id: 77, payload }, 5, 6);
        assert_eq!(reply.version, 1);
        assert_eq!(reply.id, 77);
        assert_eq!(
            reply.payload,
            MessagePayload::Response(Response::Error {
                code: 505,
                message: "Protocol version mismatch: expected 1, got 2".to_string(),
            })
        );
        assert_eq!(handler.get_threshold("temp_01"), None);
    }
}

#[test]
fn every_other_version_is_refused() {
    for version in [0u8, 2, 3, 255] {
        let mut handler = TemperatureProtocolHandler::new();
        let reply = handler.process_command_at(
            ProtocolMessage { version, id: 9, payload: MessagePayload::Command(Command::GetStatus) },
            0,
            0,
        );
        match reply.payload {
            MessagePayload::Response(Response::Error { code, .. }) => assert_eq!(code, 505),
            _ => panic!("expected a refusal"),
        }
    }
}

#[test]
fn response_envelopes_are_refused() {
    let mut handler = TemperatureProtocolHandler::new();
    let reply = handler.process_command_at(
        ProtocolMessage {
            version: 1,
            id: 3,
            payload: MessagePayload::Response(Response::Error { code: 1, message: String::new() }),
        },
        0,
        0,
    );
    assert_eq!(
        reply.payload,
        MessagePayload::Response(Response::Error {
            code: 400,
            message: "Cannot process response messages".to_string(),
        })
    );
}

#[test]
fn bad_threshold_is_refused_and_changes_nothing() {
    let mut handler = TemperatureProtocolHandler::new();
    let set = answer(
        &mut handler,
        Command::SetThreshold { sensor_id: "temp_01".to_string(), min_temp: 15_000, max_temp: 35_000 },
    );
    assert_eq!(
        set,
        Response::ThresholdSet { sensor_id: "temp_01".to_string(), min_temp: 15_000, max_temp: 35_000 }
    );
    for (min_temp, max_temp) in [(30_000, 20_000), (20_000, 20_000), (i32::MAX, i32::MIN)] {
        let refused = answer(
            &mut handler,
            Command::SetThreshold { sensor_id: "temp_01".to_string(), min_temp, max_temp },
        );
        assert_eq!(error_code(&refused), Some(400));
        assert_eq!(handler.get_threshold("temp_01"), Some((15_000, 35_000)));
    }
    // An unknown sensor does not matter where the bounds are refused first.
    let refused = answer(
        &mut handler,
        Command::SetThreshold { sensor_id: "nobody".to_string(), min_temp: 2, max_temp: 1 },
    );
    assert_eq!(error_code(&refused), Some(400));
    assert_eq!(handler.get_threshold("nobody"), None);
}

#[test]
fn bad_threshold_message() {
    let mut handler = TemperatureProtocolHandler::new();
    let refused = answer(
        &mut handler,
        Command::SetThreshold { sensor_id: "temp_01".to_string(), min_temp: 30_000, max_temp: 20_500 },
    );
    assert_eq!(
        refused,
        Response::Error {
            code: 400,
            message:
                "Invalid threshold min=30, max=20.5: Min temperature must be less than max temperature"
                    .to_string(),
        }
    );
}

#[test]
fn threshold_replaces_earlier_bounds() {
    let mut handler = TemperatureProtocolHandler::new();
    answer(
        &mut handler,
        Command::SetThreshold { sensor_id: "temp_02".to_string(), min_temp: 1, max_temp: 2 },
    );
    answer(
        &mut handler,
        Command::SetThreshold { sensor_id: "temp_01".to_string(), min_temp: 3, max_temp: 4 },
    );
    answer(
        &mut handler,
        Command::SetThreshold { sensor_id: "temp_02".to_string(), min_temp: -5, max_temp: 6 },
    );
    assert_eq!(handler.get_threshold("temp_02"), Some((-5, 6)));
    assert_eq!(handler.get_threshold("temp_01"), Some((3, 4)));
    assert_eq!(handler.get_threshold("temp_03"), None);
}

#[test]
fn unknown_sensor_is_refused_and_changes_nothing() {
    let mut handler = TemperatureProtocolHandler::new();
    answer(&mut handler, Command::GetReading { sensor_id: "temp_01".to_string() });
    let commands = vec![
        Command::GetReading { sensor_id: "nobody".to_string() },
        Command::SetThreshold { sensor_id: "nobody".to_string(), min_temp: 1, max_temp: 2 },
        Command::GetHistory { sensor_id: "nobody".to_string(), last_n: 5 },
        Command::GetStats { sensor_id: "nobody".to_string() },
        Command::Calibrate { sensor_id: "nobody".to_string(), actual_temp: 1 },
    ];
    for command in commands {
        let refused = answer(&mut handler, command);
        assert_eq!(
            refused,
            Response::Error { code: 404, message: "Sensor 'nobody' not found".to_string() }
        );
    }
    let status = answer(&mut handler, Command::GetStatus);
    assert_eq!(
        status,
        Response::Status {
            active_sensors: vec!["temp_01".to_string(), "temp_02".to_string(), "temp_03".to_string()],
            uptime_seconds: 42,
            readings_count: 1,
        }
    );
    assert_eq!(handler.get_threshold("nobody"), None);
}

#[test]
fn reading_is_stored_and_reported() {
    let mut handler = TemperatureProtocolHandler::new();
    let first = handler.handle_command_at(Command::GetReading { sensor_id: "temp_02".to_string() }, 10, 0);
    assert_eq!(
        first,
        Response::Reading { sensor_id: "temp_02".to_string(), temperature: 21_800, timestamp: 10 }
    );
    handler.handle_command_at(Command::GetReading { sensor_id: "temp_03".to_string() }, 11, 0);
    handler.handle_command_at(Command::GetReading { sensor_id: "temp_01".to_string() }, 12, 0);
    let history =
        handler.handle_command_at(Command::GetHistory { sensor_id: "temp_01".to_string(), last_n: 2 }, 13, 0);
    assert_eq!(
        history,
        Response::History {
            sensor_id: "temp_01".to_string(),
            readings: vec![
                TemperatureReading { temperature: Temperature::new(25_100), timestamp: 11 },
                TemperatureReading { temperature: Temperature::new(23_500), timestamp: 12 },
            ],
        }
    );
    let stats = handler.handle_command_at(Command::GetStats { sensor_id: "temp_01".to_string() }, 14, 0);
    match stats {
        Response::Stats { sensor_id, stats } => {
            assert_eq!(sensor_id, "temp_01");
            assert_eq!(stats.min.millicelsius, 21_800);
            assert_eq!(stats.max.millicelsius, 25_100);
            assert_eq!(stats.average.millicelsius, 23_466);
            assert_eq!(stats.count, 3);
        }
        _ => panic!("expected statistics"),
    }
}

#[test]
fn stats_of_an_empty_history_are_zero() {
    let mut handler = TemperatureProtocolHandler::new();
    match answer(&mut handler, Command::GetStats { sensor_id: "temp_01".to_string() }) {
        Response::Stats { stats, .. } => {
            assert_eq!(stats.count, 0);
            assert_eq!(stats.min.millicelsius, 0);
            assert_eq!(stats.max.millicelsius, 0);
            assert_eq!(stats.average.millicelsius, 0);
        }
        _ => panic!("expected statistics"),
    }
}

#[test]
fn history_keeps_a_hundred_readings() {
    let mut handler = TemperatureProtocolHandler::new();
    for second in 0..130u64 {
        handler.handle_command_at(Command::GetReading { sensor_id: "temp_01".to_string() }, second, 0);
    }
    match answer(&mut handler, Command::GetHistory { sensor_id: "temp_01".to_string(), last_n: 1_000 }) {
        Response::History { readings, .. } => {
            assert_eq!(readings.len(), 100);
            assert_eq!(readings[0].timestamp, 30);
            assert_eq!(readings[99].timestamp, 129);
        }
        _ => panic!("expected a history"),
    }
}

#[test]
fn calibration_rebases_the_sensor() {
    let mut handler = TemperatureProtocolHandler::new();
    let done = answer(&mut handler, Command::Calibrate { sensor_id: "temp_01".to_string(), actual_temp: 25_000 });
    assert_eq!(
        done,
        Response::CalibrationComplete { sensor_id: "temp_01".to_string(), offset_adjustment: 1_500 }
    );
    let reading = answer(&mut handler, Command::GetReading { sensor_id: "temp_01".to_string() });
    assert_eq!(
        reading,
        Response::Reading { sensor_id: "temp_01".to_string(), temperature: 25_000, timestamp: 1_700_000_000 }
    );
    let back = answer(&mut handler, Command::Calibrate { sensor_id: "temp_01".to_string(), actual_temp: i32::MIN });
    assert_eq!(
        back,
        Response::CalibrationComplete {
            sensor_id: "temp_01".to_string(),
            offset_adjustment: i32::MIN as i64 - 25_000,
        }
    );
}

#[test]
fn correlation_numbers_count_up() {
    let mut handler = TemperatureProtocolHandler::new();
    let first = handler.create_command(Command::GetStatus);
    let second = handler.create_command(Command::GetStatus);
    assert_eq!((first.version, first.id), (1, 1));
    assert_eq!((second.version, second.id), (1, 2));
    let reply = handler.create_response(7, Response::Error { code: 1, message: "m".to_string() });
    assert_eq!((reply.version, reply.id), (1, 7));
    let reply = handler.process_command(second);
    assert_eq!(reply.id, 2);
}

#[test]
fn error_responses_by_kind() {
    let cases = vec![
        (ProtocolError::InvalidSensorId { sensor_id: "a".to_string() }, 404, "Sensor 'a' not found"),
        (
            ProtocolError::SensorNotResponding { sensor_id: "b".to_string() },
            503,
            "Sensor 'b' is not responding",
        ),
        (
            ProtocolError::InvalidThreshold { min: -1_500, max: -2_000, reason: "why".to_string() },
            400,
            "Invalid threshold min=-1.5, max=-2: why",
        ),
        (
            ProtocolError::CalibrationFailed { sensor_id: "c".to_string(), reason: "r".to_string() },
            422,
            "Calibration failed for 'c': r",
        ),
        (ProtocolError::SystemError { code: 599, details: "boom".to_string() }, 599, "boom"),
        (
            ProtocolError::ProtocolVersionMismatch { expected: 1, received: 200 },
            505,
            "Protocol version mismatch: expected 1, got 200",
        ),
    ];
    for (error, code, message) in cases {
        assert_eq!(error.to_response(), Response::Error { code, message: message.to_string() });
    }
}

#[test]
fn default_handler_is_a_new_handler() {
    let mut handler = TemperatureProtocolHandler::default();
    let message = handler.create_command(Command::GetStatus);
    assert_eq!(message.id, 1);
}
