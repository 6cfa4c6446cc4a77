use sensor_telemetry::monitor::{
    AsyncMockSensor, AsyncSensorError, AsyncTemperatureMonitor, MonitorAction, MonitorCommand,
    MonitorEvent, MonitorState,
};
use sensor_telemetry::store::{TemperatureReading, TemperatureStats};
use sensor_telemetry::temperature::Temperature;

#[test]
fn scripted_sensor_reads_and_fails_once() {
    let mut sensor = AsyncMockSensor::new("test".to_string(), 25_000);
    assert_eq!(sensor.sensor_id(), "test");
    assert_eq!(sensor.read_delay_ms(), 100);
    assert_eq!(sensor.finish_read(), Ok(Temperature::new(25_000)));
    sensor.fail_next_read();
    assert_eq!(sensor.finish_read(), Err(AsyncSensorError::ReadFailed));
    assert_eq!(sensor.finish_read(), Ok(Temperature::new(25_000)));
    sensor.set_temperature(-1);
    assert_eq!(sensor.finish_read(), Ok(Temperature::new(-1)));
    let sensor = sensor.with_delay(200);
    assert_eq!(sensor.read_delay_ms(), 200);
}

#[test]
fn monitor_samples_and_answers() {
    let mut monitor = AsyncTemperatureMonitor::new(10);
    assert!(monitor.start(100));
    assert_eq!(monitor.step(MonitorEvent::Tick), MonitorAction::ReadSensor);
    let first = TemperatureReading::with_timestamp(Temperature::new(20_000), 1);
    assert_eq!(
        monitor.step(MonitorEvent::ReadSucceeded { temperature: Temperature::new(20_000), timestamp: 1 }),
        MonitorAction::Stored(first)
    );
    assert_eq!(monitor.step(MonitorEvent::Tick), MonitorAction::ReadSensor);
    assert_eq!(monitor.step(MonitorEvent::ReadFailed), MonitorAction::ReportFailure);
    assert_eq!(monitor.state(), MonitorState::Running);
    assert_eq!(monitor.store().len(), 1);
    let second = TemperatureReading::with_timestamp(Temperature::new(22_000), 2);
    monitor.step(MonitorEvent::ReadSucceeded { temperature: Temperature::new(22_000), timestamp: 2 });
    assert_eq!(
        monitor.step(MonitorEvent::Command(MonitorCommand::GetStats)),
        MonitorAction::ReplyStats(Some(TemperatureStats {
            min: Temperature::new(20_000),
            max: Temperature::new(22_000),
            average: Temperature::new(21_000),
            count: 2,
        }))
    );
    assert_eq!(
        monitor.step(MonitorEvent::Command(MonitorCommand::GetLatest)),
        MonitorAction::ReplyLatest(Some(second))
    );
    assert_eq!(
        monitor.step(MonitorEvent::Command(MonitorCommand::SetInterval(50))),
        MonitorAction::RestartTimer(50)
    );
    assert_eq!(monitor.interval_ms(), 50);
    assert_eq!(monitor.store().len(), 2);
}

#[test]
fn monitor_answers_absence_when_empty() {
    let mut monitor = AsyncTemperatureMonitor::new(3);
    assert_eq!(monitor.step(MonitorEvent::Command(MonitorCommand::GetStats)), MonitorAction::ReplyStats(None));
    assert_eq!(monitor.step(MonitorEvent::Command(MonitorCommand::GetLatest)), MonitorAction::ReplyLatest(None));
}

#[test]
fn monitor_refuses_an_interval_of_zero() {
    let mut monitor = AsyncTemperatureMonitor::new(3);
    assert!(!monitor.start(0));
    assert!(monitor.start(10));
    assert_eq!(
        monitor.step(MonitorEvent::Command(MonitorCommand::SetInterval(0))),
        MonitorAction::RefuseInterval
    );
    assert_eq!(monitor.interval_ms(), 10);
    assert_eq!(monitor.state(), MonitorState::Running);
}

#[test]
fn stop_ends_the_monitor_and_nothing_is_processed_after() {
    let mut monitor = AsyncTemperatureMonitor::new(3);
    monitor.start(10);
    monitor.step(MonitorEvent::ReadSucceeded { temperature: Temperature::new(1), timestamp: 1 });
    assert_eq!(monitor.step(MonitorEvent::Command(MonitorCommand::Stop)), MonitorAction::Shutdown);
    assert_eq!(monitor.state(), MonitorState::Stopped);
    let later = [
        MonitorEvent::Tick,
        MonitorEvent::ReadSucceeded { temperature: Temperature::new(2), timestamp: 2 },
        MonitorEvent::ReadFailed,
        MonitorEvent::Command(MonitorCommand::SetInterval(5)),
        MonitorEvent::Command(MonitorCommand::GetStats),
        MonitorEvent::Command(MonitorCommand::GetLatest),
        MonitorEvent::Command(MonitorCommand::Stop),
        MonitorEvent::ChannelClosed,
    ];
    for event in later {
        assert_eq!(monitor.step(event), MonitorAction::Dropped);
        assert_eq!(monitor.state(), MonitorState::Stopped);
        assert_eq!(monitor.interval_ms(), 10);
        assert_eq!(monitor.store().len(), 1);
    }
}

#[test]
fn closed_channel_ends_the_monitor() {
    let mut monitor = AsyncTemperatureMonitor::new(3);
    assert_eq!(monitor.step(MonitorEvent::ChannelClosed), MonitorAction::Shutdown);
    assert_eq!(monitor.state(), MonitorState::Stopped);
}

#[test]
fn monitor_history_is_bounded() {
    let mut monitor = AsyncTemperatureMonitor::new(2);
    for second in 0..5u64 {
        monitor.step(MonitorEvent::ReadSucceeded { temperature: Temperature::new(second as i32), timestamp: second });
    }
    let held = monitor.store().get_all();
    assert_eq!(held.len(), 2);
    assert_eq!(held[0].timestamp, 3);
    assert_eq!(held[1].timestamp, 4);
}

#[test]
fn async_sensor_works() {
    let mut sensor = AsyncMockSensor::new("test".to_string(), 25_000);

    let reading = sensor.finish_read().unwrap();
    assert_eq!(reading.millicelsius, 25_000);
    assert_eq!(sensor.sensor_id(), "test");
}

#[test]
fn async_sensor_respects_delay() {
    let sensor = AsyncMockSensor::new("test".to_string(), 25_000).with_delay(200);

    assert!(sensor.read_delay_ms() >= 190);
}

#[test]
fn async_sensor_can_fail() {
    let mut sensor = AsyncMockSensor::new("test".to_string(), 25_000);

    sensor.fail_next_read();
    let result = sensor.finish_read();
    assert!(matches!(result, Err(AsyncSensorError::ReadFailed)));

    // Should work again
    let reading = sensor.finish_read().unwrap();
    assert_eq!(reading.millicelsius, 25_000);
}

#[test]
fn monitor_handles_commands() {
    let mut monitor = AsyncTemperatureMonitor::new(10);
    let mut sensor = AsyncMockSensor::new("test".to_string(), 20_000).with_delay(10);
    assert!(monitor.start(100));

    // Two ticks pass before the first command arrives.
    for second in 0..2u64 {
        assert_eq!(monitor.step(MonitorEvent::Tick), MonitorAction::ReadSensor);
        let temperature = sensor.finish_read().unwrap();
        monitor.step(MonitorEvent::ReadSucceeded { temperature, timestamp: second });
    }

    // Get stats
    match monitor.step(MonitorEvent::Command(MonitorCommand::GetStats)) {
        MonitorAction::ReplyStats(stats) => {
            assert!(stats.is_some());
            let stats = stats.unwrap();
            assert!(stats.count >= 2);
            assert_eq!(stats.min.millicelsius, 20_000);
        }
        _ => panic!("expected statistics"),
    }

    // Get latest reading
    match monitor.step(MonitorEvent::Command(MonitorCommand::GetLatest)) {
        MonitorAction::ReplyLatest(latest) => {
            assert!(latest.is_some());
            assert_eq!(latest.unwrap().temperature.millicelsius, 20_000);
        }
        _ => panic!("expected the latest reading"),
    }

    // Change interval
    assert_eq!(
        monitor.step(MonitorEvent::Command(MonitorCommand::SetInterval(50))),
        MonitorAction::RestartTimer(50)
    );

    // Stop the monitor
    assert_eq!(monitor.step(MonitorEvent::Command(MonitorCommand::Stop)), MonitorAction::Shutdown);
    assert_eq!(monitor.state(), MonitorState::Stopped);
}

#[test]
fn multiple_sensors_simulation() {
    let mut sensor1 = AsyncMockSensor::new("sensor1".to_string(), 20_000).with_delay(50);
    let mut sensor2 = AsyncMockSensor::new("sensor2".to_string(), 25_000).with_delay(75);

    for _ in 0..5 {
        assert_eq!(sensor1.finish_read().unwrap().millicelsius, 20_000);
        assert_eq!(sensor2.finish_read().unwrap().millicelsius, 25_000);
    }
}
