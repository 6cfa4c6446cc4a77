//! The sensor capability, and a scripted sensor that stands in for a device.
use vstd::prelude::*;
use crate::temperature::Temperature;

verus! {

/// What a source of readings offers: one attempt at a reading, which may
/// fail, and a stable identifier.
pub trait TemperatureSensor {
    type Error;

    fn read_temperature(&mut self) -> Result<Temperature, Self::Error>;

    fn sensor_id(&self) -> &str;
}

/// Why a scripted sensor gave no reading.
#[derive(Debug, Clone, Copy, PartialEq, Eq, Structural)]
pub enum MockError {
    SensorOffline,
    ReadFailed,
}

impl MockError {
    /// The words for this failure.
    pub fn message(&self) -> (words: &'static str)
        ensures
            words@ == (match *self {
                MockError::SensorOffline => "Sensor is offline"@,
                MockError::ReadFailed => "Failed to read sensor"@,
            }),
    {
        match self {
            MockError::SensorOffline => "Sensor is offline",
            MockError::ReadFailed => "Failed to read sensor",
        }
    }
}

/// A scripted sensor: it reports a set temperature, can be switched offline,
/// and can be told to fail its next reading.
pub struct MockTemperatureSensor {
    id: String,
    temperature: i32,
    fail_next: bool,
    offline: bool,
}

/// What a scripted sensor holds.
pub struct MockSensorModel {
    pub id: Seq<char>,
    pub temperature: i32,
    pub fail_next: bool,
    pub offline: bool,
}

/// What one reading attempt does to a scripted sensor, and what it yields:
/// an offline sensor refuses; a sensor told to fail does so once and forgets
/// the order; otherwise the set temperature comes back.
pub open spec fn mock_read(sensor: MockSensorModel) -> (MockSensorModel, Result<Temperature, MockError>) {
    if sensor.offline {
        (sensor, Err(MockError::SensorOffline))
    } else if sensor.fail_next {
        (MockSensorModel { fail_next: false, ..sensor }, Err(MockError::ReadFailed))
    } else {
        (sensor, Ok(Temperature { millicelsius: sensor.temperature }))
    }
}

impl View for MockTemperatureSensor {
    type V = MockSensorModel;

    closed spec fn view(&self) -> MockSensorModel {
        MockSensorModel {
            id: self.id@,
            temperature: self.temperature,
            fail_next: self.fail_next,
            offline: self.offline,
        }
    }
}

impl MockTemperatureSensor {
    /// An online sensor named `id` that reports `temperature`, in
    /// thousandths of a degree Celsius.
    pub fn new(id: String, temperature: i32) -> (sensor: MockTemperatureSensor)
        ensures
            sensor@ == (MockSensorModel { id: id@, temperature, fail_next: false, offline: false }),
    {
        MockTemperatureSensor { id, temperature, fail_next: false, offline: false }
    }

    /// Sets the temperature that the sensor reports.
    pub fn set_temperature(&mut self, temp: i32)
        ensures
            final(self)@ == (MockSensorModel { temperature: temp, ..old(self)@ }),
    {
        self.temperature = temp;
    }

    /// Sets the baseline that the sensor reports after a calibration.
    pub fn set_base_temperature(&mut self, temp: i32)
        ensures
            final(self)@ == (MockSensorModel { temperature: temp, ..old(self)@ }),
    {
        self.temperature = temp;
    }

    /// Switches the sensor offline or back online.
    pub fn set_offline(&mut self, offline: bool)
        ensures
            final(self)@ == (MockSensorModel { offline, ..old(self)@ }),
    {
        self.offline = offline;
    }

    /// Makes the next reading attempt of an online sensor fail.
    pub fn fail_next_read(&mut self)
        ensures
            final(self)@ == (MockSensorModel { fail_next: true, ..old(self)@ }),
    {
        self.fail_next = true;
    }
}

impl TemperatureSensor for MockTemperatureSensor {
    type Error = MockError;

    fn read_temperature(&mut self) -> (outcome: Result<Temperature, MockError>)
        ensures
            (final(self)@, outcome) == mock_read(old(self)@),
    {
        if self.offline {
            return Err(MockError::SensorOffline);
        }
        if self.fail_next {
            self.fail_next = false;
            return Err(MockError::ReadFailed);
        }
        Ok(Temperature::new(self.temperature))
    }

    fn sensor_id(&self) -> (id: &str)
        ensures
            id@ == self@.id,
    {
        self.id.as_str()
    }
}

} // verus!
