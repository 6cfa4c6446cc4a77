use sensor_telemetry::sensor::{MockError, MockTemperatureSensor, TemperatureSensor};
use sensor_telemetry::temperature::Temperature;
use sensor_telemetry::text::{decimal_string, fixed_point_string};
use sensor_telemetry::exercise_example_solution;

#[test]
fn exercise_example_test() {
    let result = exercise_example_solution();
    assert_eq!(result, 42);
}

#[test]
fn temperature_conversions() {
    let temp = Temperature::new(20_000);
    assert!((temp.to_fahrenheit() - 68_000).abs() < 100);
    assert!((temp.to_kelvin() - 293_150).abs() < 100);

    let from_f = Temperature::from_fahrenheit(68_000);
    assert!((from_f.millicelsius - 20_000).abs() < 100);

    let from_k = Temperature::from_kelvin(293_150);
    assert!((from_k.millicelsius - 20_000).abs() < 100);
}

#[test]
fn temperature_conversions_are_exact() {
    assert_eq!(Temperature::new(20_000).to_fahrenheit(), 68_000);
    assert_eq!(Temperature::new(20_000).to_kelvin(), 293_150);
    assert_eq!(Temperature::new(-40_000).to_fahrenheit(), -40_000);
    assert_eq!(Temperature::from_fahrenheit(68_000).millicelsius, 20_000);
    assert_eq!(Temperature::from_fahrenheit(-40_000).millicelsius, -40_000);
    // 33 °F is five ninths of a degree above freezing: 0.555… rounds toward zero.
    assert_eq!(Temperature::from_fahrenheit(33_000).millicelsius, 555);
    assert_eq!(Temperature::from_fahrenheit(31_000).millicelsius, -555);
    assert_eq!(Temperature::new(-1).to_fahrenheit(), 31_999);
    assert_eq!(Temperature::from_kelvin(0).millicelsius, -273_150);
    assert_eq!(Temperature::from_kelvin(293_150).millicelsius, 20_000);
}

#[test]
fn temperature_from_converter_count() {
    assert_eq!(Temperature::from_embedded_sensor(0).millicelsius, 0);
    assert_eq!(Temperature::from_embedded_sensor(4095).millicelsius, 330_000);
    assert_eq!(Temperature::from_embedded_sensor(62).millicelsius, 4_996);
    assert_eq!(Temperature::from_embedded_sensor(65_535).millicelsius, 5_281_208);
}

#[test]
fn temperature_display() {
    let temp = Temperature::new(23_456);
    assert_eq!(temp.to_display_string(), "23.5°C");
}

#[test]
fn temperature_display_rounds_and_signs() {
    assert_eq!(Temperature::new(0).to_display_string(), "0.0°C");
    assert_eq!(Temperature::new(23_449).to_display_string(), "23.4°C");
    assert_eq!(Temperature::new(23_450).to_display_string(), "23.5°C");
    assert_eq!(Temperature::new(-500).to_display_string(), "-0.5°C");
    assert_eq!(Temperature::new(-12_345).to_display_string(), "-12.3°C");
    assert_eq!(Temperature::new(99_950).to_display_string(), "100.0°C");
    assert_eq!(Temperature::new(i32::MIN).to_display_string(), "-2147483.6°C");
}

#[test]
fn decimal_text() {
    assert_eq!(decimal_string(0), "0");
    assert_eq!(decimal_string(7), "7");
    assert_eq!(decimal_string(10), "10");
    assert_eq!(decimal_string(8080), "8080");
    assert_eq!(decimal_string(u64::MAX), "18446744073709551615");
}

#[test]
fn fixed_point_text() {
    assert_eq!(fixed_point_string(30_000), "30");
    assert_eq!(fixed_point_string(15_500), "15.5");
    assert_eq!(fixed_point_string(15_250), "15.25");
    assert_eq!(fixed_point_string(15_005), "15.005");
    assert_eq!(fixed_point_string(-250), "-0.25");
    assert_eq!(fixed_point_string(0), "0");
    assert_eq!(fixed_point_string(i64::MIN), "-9223372036854775.808");
}

#[test]
fn mock_sensor_works() {
    let mut sensor = MockTemperatureSensor::new("test-sensor".to_string(), 25_000);

    let reading = sensor.read_temperature().unwrap();
    assert_eq!(reading.millicelsius, 25_000);
    assert_eq!(sensor.sensor_id(), "test-sensor");
}

#[test]
fn mock_sensor_can_fail() {
    let mut sensor = MockTemperatureSensor::new("test-sensor".to_string(), 25_000);

    sensor.fail_next_read();
    let result = sensor.read_temperature();
    assert!(matches!(result, Err(MockError::ReadFailed)));

    // Should work again after failure
    let reading = sensor.read_temperature().unwrap();
    assert_eq!(reading.millicelsius, 25_000);
}

#[test]
fn mock_sensor_can_be_offline() {
    let mut sensor = MockTemperatureSensor::new("test-sensor".to_string(), 25_000);

    sensor.set_offline(true);
    let result = sensor.read_temperature();
    assert!(matches!(result, Err(MockError::SensorOffline)));

    sensor.set_offline(false);
    let reading = sensor.read_temperature().unwrap();
    assert_eq!(reading.millicelsius, 25_000);
}

#[test]
fn mock_sensor_temperature_can_change() {
    let mut sensor = MockTemperatureSensor::new("test-sensor".to_string(), 25_000);

    let reading1 = sensor.read_temperature().unwrap();
    assert_eq!(reading1.millicelsius, 25_000);

    sensor.set_temperature(30_000);
    let reading2 = sensor.read_temperature().unwrap();
    assert_eq!(reading2.millicelsius, 30_000);
}

#[test]
fn mock_sensor_offline_keeps_the_order_to_fail() {
    let mut sensor = MockTemperatureSensor::new("s".to_string(), 1_000);
    sensor.fail_next_read();
    sensor.set_offline(true);
    assert!(matches!(sensor.read_temperature(), Err(MockError::SensorOffline)));
    sensor.set_offline(false);
    assert!(matches!(sensor.read_temperature(), Err(MockError::ReadFailed)));
    assert_eq!(sensor.read_temperature().unwrap().millicelsius, 1_000);
}

#[test]
fn mock_error_words() {
    assert_eq!(MockError::SensorOffline.message(), "Sensor is offline");
    assert_eq!(MockError::ReadFailed.message(), "Failed to read sensor");
}
