//! The request and response protocol: a versioned envelope, the command
//! vocabulary, and the handler that answers one request at a time from a
//! registry of sensors and a bounded history of readings.
use vstd::prelude::*;
use vstd::string::StringExecFns;
use std::time::Instant;
use crate::chars::texts;
use crate::clock::{seconds_since, unix_time_seconds};
use crate::lookup::{
    first_at, lemma_position_found, lemma_position_meaning, lemma_position_missing,
    lemma_push_keeps_distinct, position,
};
use crate::sensor::{mock_read, MockError, MockSensorModel, MockTemperatureSensor, TemperatureSensor};
use crate::store::{
    after_add, recent, stats_of, zero_stats, TemperatureReading,
    TemperatureStats, TemperatureStore,
};
use crate::temperature::Temperature;
use crate::text::{decimal, fixed_point, push_decimal, push_fixed_point, str_eq};

verus! {

/// The one protocol version that the handler speaks.
pub const PROTOCOL_VERSION: u8 = 1;

/// The number of readings that a handler's history keeps.
pub const HISTORY_CAPACITY: usize = 100;

/// Error code: an argument of the command is not acceptable.
pub const CODE_INVALID_ARGUMENT: u16 = 400;

/// Error code: no sensor of that name is registered.
pub const CODE_UNKNOWN_SENSOR: u16 = 404;

/// Error code: the calibration could not be carried out.
pub const CODE_CALIBRATION_FAILED: u16 = 422;

/// Error code: the sensor gave no reading.
pub const CODE_SENSOR_UNRESPONSIVE: u16 = 503;

/// Error code: the envelope is of another protocol version.
pub const CODE_VERSION_MISMATCH: u16 = 505;

/// A request.  Temperatures are thousandths of a degree Celsius.
#[derive(Debug, Clone, PartialEq)]
pub enum Command {
    GetStatus,
    GetReading { sensor_id: String },
    SetThreshold { sensor_id: String, min_temp: i32, max_temp: i32 },
    GetHistory { sensor_id: String, last_n: usize },
    GetStats { sensor_id: String },
    Calibrate { sensor_id: String, actual_temp: i32 },
}

/// An answer.  Each command has its own answer; `Error` answers any command
/// that was refused.
#[derive(Debug, Clone, PartialEq)]
pub enum Response {
    Status { active_sensors: Vec<String>, uptime_seconds: u64, readings_count: usize },
    Reading { sensor_id: String, temperature: i32, timestamp: u64 },
    ThresholdSet { sensor_id: String, min_temp: i32, max_temp: i32 },
    History { sensor_id: String, readings: Vec<TemperatureReading> },
    Stats { sensor_id: String, stats: TemperatureStats },
    CalibrationComplete { sensor_id: String, offset_adjustment: i64 },
    Error { code: u16, message: String },
}

/// The envelope: a protocol version, a correlation number and a payload.
#[derive(Debug, Clone, PartialEq)]
pub struct ProtocolMessage {
    pub version: u8,
    pub id: u32,
    pub payload: MessagePayload,
}

/// What an envelope carries.
#[derive(Debug, Clone, PartialEq)]
pub enum MessagePayload {
    Command(Command),
    Response(Response),
}

/// Why a command was refused.
#[derive(Debug, Clone)]
pub enum ProtocolError {
    InvalidSensorId { sensor_id: String },
    SensorNotResponding { sensor_id: String },
    InvalidThreshold { min: i32, max: i32, reason: String },
    CalibrationFailed { sensor_id: String, reason: String },
    SystemError { code: u16, details: String },
    ProtocolVersionMismatch { expected: u8, received: u8 },
}

/// What a `Command` says.
pub enum CommandModel {
    GetStatus,
    GetReading { sensor_id: Seq<char> },
    SetThreshold { sensor_id: Seq<char>, min_temp: i32, max_temp: i32 },
    GetHistory { sensor_id: Seq<char>, last_n: usize },
    GetStats { sensor_id: Seq<char> },
    Calibrate { sensor_id: Seq<char>, actual_temp: i32 },
}

/// What a `Response` says.
pub enum ResponseModel {
    Status { active_sensors: Seq<Seq<char>>, uptime_seconds: u64, readings_count: usize },
    Reading { sensor_id: Seq<char>, temperature: i32, timestamp: u64 },
    ThresholdSet { sensor_id: Seq<char>, min_temp: i32, max_temp: i32 },
    History { sensor_id: Seq<char>, readings: Seq<TemperatureReading> },
    Stats { sensor_id: Seq<char>, stats: TemperatureStats },
    CalibrationComplete { sensor_id: Seq<char>, offset_adjustment: i64 },
    Error { code: u16, message: Seq<char> },
}

/// What a `MessagePayload` says.
pub enum PayloadModel {
    Command(CommandModel),
    Response(ResponseModel),
}

/// What a `ProtocolMessage` says.
pub struct MessageModel {
    pub version: u8,
    pub id: u32,
    pub payload: PayloadModel,
}

/// What a `ProtocolError` says.
pub enum ErrorModel {
    InvalidSensorId { sensor_id: Seq<char> },
    SensorNotResponding { sensor_id: Seq<char> },
    InvalidThreshold { min: i32, max: i32, reason: Seq<char> },
    CalibrationFailed { sensor_id: Seq<char>, reason: Seq<char> },
    SystemError { code: u16, details: Seq<char> },
    ProtocolVersionMismatch { expected: u8, received: u8 },
}

impl View for Command {
    type V = CommandModel;

    open spec fn view(&self) -> CommandModel {
        match *self {
            Command::GetStatus => CommandModel::GetStatus,
            Command::GetReading { sensor_id } => CommandModel::GetReading { sensor_id: sensor_id@ },
            Command::SetThreshold { sensor_id, min_temp, max_temp } => CommandModel::SetThreshold {
                sensor_id: sensor_id@,
                min_temp,
                max_temp,
            },
            Command::GetHistory { sensor_id, last_n } => CommandModel::GetHistory {
                sensor_id: sensor_id@,
                last_n,
            },
            Command::GetStats { sensor_id } => CommandModel::GetStats { sensor_id: sensor_id@ },
            Command::Calibrate { sensor_id, actual_temp } => CommandModel::Calibrate {
                sensor_id: sensor_id@,
                actual_temp,
            },
        }
    }
}

impl View for Response {
    type V = ResponseModel;

    open spec fn view(&self) -> ResponseModel {
        match *self {
            Response::Status { active_sensors, uptime_seconds, readings_count } => ResponseModel::Status {
                active_sensors: texts(active_sensors@),
                uptime_seconds,
                readings_count,
            },
            Response::Reading { sensor_id, temperature, timestamp } => ResponseModel::Reading {
                sensor_id: sensor_id@,
                temperature,
                timestamp,
            },
            Response::ThresholdSet { sensor_id, min_temp, max_temp } => ResponseModel::ThresholdSet {
                sensor_id: sensor_id@,
                min_temp,
                max_temp,
            },
            Response::History { sensor_id, readings } => ResponseModel::History {
                sensor_id: sensor_id@,
                readings: readings@,
            },
            Response::Stats { sensor_id, stats } => ResponseModel::Stats { sensor_id: sensor_id@, stats },
            Response::CalibrationComplete { sensor_id, offset_adjustment } => ResponseModel::CalibrationComplete {
                sensor_id: sensor_id@,
                offset_adjustment,
            },
            Response::Error { code, message } => ResponseModel::Error { code, message: message@ },
        }
    }
}

impl View for MessagePayload {
    type V = PayloadModel;

    open spec fn view(&self) -> PayloadModel {
        match *self {
            MessagePayload::Command(command) => PayloadModel::Command(command@),
            MessagePayload::Response(response) => PayloadModel::Response(response@),
        }
    }
}

impl View for ProtocolMessage {
    type V = MessageModel;

    open spec fn view(&self) -> MessageModel {
        MessageModel { version: self.version, id: self.id, payload: self.payload@ }
    }
}

impl View for ProtocolError {
    type V = ErrorModel;

    open spec fn view(&self) -> ErrorModel {
        match *self {
            ProtocolError::InvalidSensorId { sensor_id } => ErrorModel::InvalidSensorId {
                sensor_id: sensor_id@,
            },
            ProtocolError::SensorNotResponding { sensor_id } => ErrorModel::SensorNotResponding {
                sensor_id: sensor_id@,
            },
            ProtocolError::InvalidThreshold { min, max, reason } => ErrorModel::InvalidThreshold {
                min,
                max,
                reason: reason@,
            },
            ProtocolError::CalibrationFailed { sensor_id, reason } => ErrorModel::CalibrationFailed {
                sensor_id: sensor_id@,
                reason: reason@,
            },
            ProtocolError::SystemError { code, details } => ErrorModel::SystemError {
                code,
                details: details@,
            },
            ProtocolError::ProtocolVersionMismatch { expected, received } => ErrorModel::ProtocolVersionMismatch {
                expected,
                received,
            },
        }
    }
}

/// The code that reports a refusal.
pub open spec fn error_code(error: ErrorModel) -> u16 {
    match error {
        ErrorModel::InvalidSensorId { .. } => CODE_UNKNOWN_SENSOR,
        ErrorModel::SensorNotResponding { .. } => CODE_SENSOR_UNRESPONSIVE,
        ErrorModel::InvalidThreshold { .. } => CODE_INVALID_ARGUMENT,
        ErrorModel::CalibrationFailed { .. } => CODE_CALIBRATION_FAILED,
        ErrorModel::SystemError { code, .. } => code,
        ErrorModel::ProtocolVersionMismatch { .. } => CODE_VERSION_MISMATCH,
    }
}

/// The words that report a refusal.
pub open spec fn error_message(error: ErrorModel) -> Seq<char> {
    match error {
        ErrorModel::InvalidSensorId { sensor_id } => "Sensor '"@ + sensor_id + "' not found"@,
        ErrorModel::SensorNotResponding { sensor_id } => "Sensor '"@ + sensor_id
            + "' is not responding"@,
        ErrorModel::InvalidThreshold { min, max, reason } => "Invalid threshold min="@ + fixed_point(
            min as int,
        ) + ", max="@ + fixed_point(max as int) + ": "@ + reason,
        ErrorModel::CalibrationFailed { sensor_id, reason } => "Calibration failed for '"@
            + sensor_id + "': "@ + reason,
        ErrorModel::SystemError { details, .. } => details,
        ErrorModel::ProtocolVersionMismatch { expected, received } =>
            "Protocol version mismatch: expected "@ + decimal(expected as nat) + ", got "@ + decimal(
                received as nat,
            ),
    }
}

/// The answer that reports a refusal.
pub open spec fn error_response(error: ErrorModel) -> ResponseModel {
    ResponseModel::Error { code: error_code(error), message: error_message(error) }
}

impl ProtocolError {
    /// The answer that reports this refusal: its code and its words.
    pub fn to_response(&self) -> (response: Response)
        ensures
            response@ == error_response(self@),
    {
        match self {
            ProtocolError::InvalidSensorId { sensor_id } => {
                let mut message = "Sensor '".to_string();
                message.append(sensor_id.as_str());
                message.append("' not found");
                Response::Error { code: 404, message }
            },
            ProtocolError::SensorNotResponding { sensor_id } => {
                let mut message = "Sensor '".to_string();
                message.append(sensor_id.as_str());
                message.append("' is not responding");
                Response::Error { code: 503, message }
            },
            ProtocolError::InvalidThreshold { min, max, reason } => {
                let mut message = "Invalid threshold min=".to_string();
                push_fixed_point(&mut message, *min as i64);
                message.append(", max=");
                push_fixed_point(&mut message, *max as i64);
                message.append(": ");
                message.append(reason.as_str());
                Response::Error { code: 400, message }
            },
            ProtocolError::CalibrationFailed { sensor_id, reason } => {
                let mut message = "Calibration failed for '".to_string();
                message.append(sensor_id.as_str());
                message.append("': ");
                message.append(reason.as_str());
                Response::Error { code: 422, message }
            },
            ProtocolError::SystemError { code, details } => Response::Error {
                code: *code,
                message: details.clone(),
            },
            ProtocolError::ProtocolVersionMismatch { expected, received } => {
                let mut message = "Protocol version mismatch: expected ".to_string();
                push_decimal(&mut message, *expected as u64);
                message.append(", got ");
                push_decimal(&mut message, *received as u64);
                Response::Error { code: 505, message }
            },
        }
    }
}

/// The bounds that were set for one sensor.
pub struct Threshold {
    sensor_id: String,
    min_temp: i32,
    max_temp: i32,
}

/// What a `Threshold` says.
pub struct ThresholdModel {
    pub sensor_id: Seq<char>,
    pub min_temp: i32,
    pub max_temp: i32,
}

impl View for Threshold {
    type V = ThresholdModel;

    closed spec fn view(&self) -> ThresholdModel {
        ThresholdModel { sensor_id: self.sensor_id@, min_temp: self.min_temp, max_temp: self.max_temp }
    }
}

/// What a handler holds: the next correlation number, the registered
/// sensors in registration order, the history with its capacity, and the
/// threshold table.
#[verifier::ext_equal]
pub struct HandlerModel {
    pub next_message_id: u32,
    pub sensors: Seq<MockSensorModel>,
    pub history: Seq<TemperatureReading>,
    pub capacity: nat,
    pub thresholds: Seq<ThresholdModel>,
}

/// The names of the registered sensors, in registration order.
pub open spec fn sensor_ids(sensors: Seq<MockSensorModel>) -> Seq<Seq<char>> {
    sensors.map_values(|s: MockSensorModel| s.id)
}

/// The names of the sensors that have bounds, in the order in which they
/// were first set.
pub open spec fn threshold_ids(table: Seq<ThresholdModel>) -> Seq<Seq<char>> {
    table.map_values(|t: ThresholdModel| t.sensor_id)
}

/// The bounds of a sensor in a threshold table, if any were set.
pub open spec fn threshold_of(table: Seq<ThresholdModel>, sensor_id: Seq<char>) -> Option<(i32, i32)> {
    match position(threshold_ids(table), sensor_id) {
        Some(at) => Some((table[at].min_temp, table[at].max_temp)),
        None => None,
    }
}

/// A threshold table after bounds were set: they replace the sensor's earlier
/// bounds, or are added where it had none.
pub open spec fn with_threshold(table: Seq<ThresholdModel>, entry: ThresholdModel) -> Seq<ThresholdModel> {
    match position(threshold_ids(table), entry.sensor_id) {
        Some(at) => table.update(at, entry),
        None => table.push(entry),
    }
}

/// The answer to a command and the handler's state after it, for a handler
/// in state `state` whose clock reads `now` seconds and that has been up for
/// `uptime` seconds.
pub open spec fn respond(state: HandlerModel, command: CommandModel, now: u64, uptime: u64) -> (
    HandlerModel,
    ResponseModel,
) {
    match command {
        CommandModel::GetStatus => (
            state,
            ResponseModel::Status {
                active_sensors: sensor_ids(state.sensors),
                uptime_seconds: uptime,
                readings_count: state.history.len() as usize,
            },
        ),
        CommandModel::GetReading { sensor_id } => match position(sensor_ids(state.sensors), sensor_id) {
            None => (state, error_response(ErrorModel::InvalidSensorId { sensor_id })),
            Some(at) => {
                let (sensor, outcome) = mock_read(state.sensors[at]);
                let sensors = state.sensors.update(at, sensor);
                match outcome {
                    Ok(temperature) => (
                        HandlerModel {
                            sensors,
                            history: after_add(
                                state.history,
                                state.capacity,
                                TemperatureReading { temperature, timestamp: now },
                            ),
                            ..state
                        },
                        ResponseModel::Reading {
                            sensor_id,
                            temperature: temperature.millicelsius,
                            timestamp: now,
                        },
                    ),
                    Err(_) => (
                        HandlerModel { sensors, ..state },
                        error_response(ErrorModel::SensorNotResponding { sensor_id }),
                    ),
                }
            },
        },
        CommandModel::SetThreshold { sensor_id, min_temp, max_temp } => if min_temp >= max_temp {
            (
                state,
                error_response(
                    ErrorModel::InvalidThreshold {
                        min: min_temp,
                        max: max_temp,
                        reason: "Min temperature must be less than max temperature"@,
                    },
                ),
            )
        } else if position(sensor_ids(state.sensors), sensor_id) is None {
            (state, error_response(ErrorModel::InvalidSensorId { sensor_id }))
        } else {
            (
                HandlerModel {
                    thresholds: with_threshold(
                        state.thresholds,
                        ThresholdModel { sensor_id, min_temp, max_temp },
                    ),
                    ..state
                },
                ResponseModel::ThresholdSet { sensor_id, min_temp, max_temp },
            )
        },
        CommandModel::GetHistory { sensor_id, last_n } => if position(
            sensor_ids(state.sensors),
            sensor_id,
        ) is None {
            (state, error_response(ErrorModel::InvalidSensorId { sensor_id }))
        } else {
            (state, ResponseModel::History { sensor_id, readings: recent(state.history, last_n as nat) })
        },
        CommandModel::GetStats { sensor_id } => if position(sensor_ids(state.sensors), sensor_id) is None {
            (state, error_response(ErrorModel::InvalidSensorId { sensor_id }))
        } else {
            (
                state,
                ResponseModel::Stats {
                    sensor_id,
                    stats: match stats_of(state.history) {
                        Some(found) => found,
                        None => zero_stats(),
                    },
                },
            )
        },
        CommandModel::Calibrate { sensor_id, actual_temp } => match position(
            sensor_ids(state.sensors),
            sensor_id,
        ) {
            None => (state, error_response(ErrorModel::InvalidSensorId { sensor_id })),
            Some(at) => {
                let (sensor, outcome) = mock_read(state.sensors[at]);
                match outcome {
                    Ok(measured) => (
                        HandlerModel {
                            sensors: state.sensors.update(
                                at,
                                MockSensorModel { temperature: actual_temp, ..sensor },
                            ),
                            ..state
                        },
                        ResponseModel::CalibrationComplete {
                            sensor_id,
                            offset_adjustment: (actual_temp - measured.millicelsius) as i64,
                        },
                    ),
                    Err(_) => (
                        HandlerModel { sensors: state.sensors.update(at, sensor), ..state },
                        error_response(
                            ErrorModel::CalibrationFailed {
                                sensor_id,
                                reason: "Sensor not responding during calibration"@,
                            },
                        ),
                    ),
                }
            },
        },
    }
}

/// The envelope that answers request `request_id` with `response`.
pub open spec fn response_envelope(request_id: u32, response: ResponseModel) -> MessageModel {
    MessageModel { version: PROTOCOL_VERSION, id: request_id, payload: PayloadModel::Response(response) }
}

/// The envelope that answers `message`, and the handler's state after it.
/// An envelope of another version is refused before its payload is looked
/// at; an envelope that carries a response is refused as well.
pub open spec fn process(state: HandlerModel, message: MessageModel, now: u64, uptime: u64) -> (
    HandlerModel,
    MessageModel,
) {
    if message.version != PROTOCOL_VERSION {
        (
            state,
            response_envelope(
                message.id,
                error_response(
                    ErrorModel::ProtocolVersionMismatch {
                        expected: PROTOCOL_VERSION,
                        received: message.version,
                    },
                ),
            ),
        )
    } else {
        match message.payload {
            PayloadModel::Command(command) => {
                let (next, response) = respond(state, command, now, uptime);
                (next, response_envelope(message.id, response))
            },
            PayloadModel::Response(_) => (
                state,
                response_envelope(
                    message.id,
                    ResponseModel::Error {
                        code: CODE_INVALID_ARGUMENT,
                        message: "Cannot process response messages"@,
                    },
                ),
            ),
        }
    }
}

/// An envelope of any version but the handler's own is answered with the
/// version-mismatch code, whatever it carries, and changes nothing.
pub proof fn lemma_other_version_refused(state: HandlerModel, message: MessageModel, now: u64, uptime: u64)
    requires
        message.version != PROTOCOL_VERSION,
    ensures
        process(state, message, now, uptime).0 == state,
        process(state, message, now, uptime).1.id == message.id,
        process(state, message, now, uptime).1.payload matches PayloadModel::Response(
            ResponseModel::Error { code, .. },
        ) && code == CODE_VERSION_MISMATCH,
{
}

/// Bounds whose minimum is not below their maximum are refused with the
/// invalid-argument code, whether or not the sensor is known, and the
/// handler, its threshold table included, stays as it was.
pub proof fn lemma_bad_threshold_refused(
    state: HandlerModel,
    sensor_id: Seq<char>,
    min_temp: i32,
    max_temp: i32,
    now: u64,
    uptime: u64,
)
    requires
        min_temp >= max_temp,
    ensures
        ({
            let (next, response) = respond(
                state,
                CommandModel::SetThreshold { sensor_id, min_temp, max_temp },
                now,
                uptime,
            );
            &&& next == state
            &&& threshold_of(next.thresholds, sensor_id) == threshold_of(state.thresholds, sensor_id)
            &&& response matches ResponseModel::Error { code, .. } && code == CODE_INVALID_ARGUMENT
        }),
{
}

/// A reading asked of a sensor that is not registered is refused with the
/// unknown-sensor code, and the handler, its history included, stays as it
/// was.
pub proof fn lemma_unknown_sensor_reading_refused(
    state: HandlerModel,
    sensor_id: Seq<char>,
    now: u64,
    uptime: u64,
)
    requires
        !sensor_ids(state.sensors).contains(sensor_id),
    ensures
        ({
            let (next, response) = respond(state, CommandModel::GetReading { sensor_id }, now, uptime);
            &&& next == state
            &&& next.history == state.history
            &&& response matches ResponseModel::Error { code, .. } && code == CODE_UNKNOWN_SENSOR
        }),
{
    let names = sensor_ids(state.sensors);
    assert forall|j: int| 0 <= j < names.len() implies names[j] != sensor_id by {
        if names[j] == sensor_id {
            assert(names.contains(sensor_id));
        }
    }
    lemma_position_missing(names, sensor_id);
}

/// Every command that names a sensor is refused with the unknown-sensor
/// code where no sensor of that name is registered, unless its bounds are
/// refused first, and the handler stays as it was.
pub proof fn lemma_unknown_sensor_refused(state: HandlerModel, command: CommandModel, now: u64, uptime: u64)
    requires
        command !is GetStatus,
        command matches CommandModel::SetThreshold { min_temp, max_temp, .. } ==> min_temp < max_temp,
        position(sensor_ids(state.sensors), command_sensor(command)) is None,
    ensures
        respond(state, command, now, uptime).0 == state,
        respond(state, command, now, uptime).1 == error_response(
            ErrorModel::InvalidSensorId { sensor_id: command_sensor(command) },
        ),
{
}

/// The sensor that a command names; none is named by `GetStatus`.
pub open spec fn command_sensor(command: CommandModel) -> Seq<char> {
    match command {
        CommandModel::GetStatus => Seq::<char>::empty(),
        CommandModel::GetReading { sensor_id } => sensor_id,
        CommandModel::SetThreshold { sensor_id, .. } => sensor_id,
        CommandModel::GetHistory { sensor_id, .. } => sensor_id,
        CommandModel::GetStats { sensor_id } => sensor_id,
        CommandModel::Calibrate { sensor_id, .. } => sensor_id,
    }
}

/// After bounds were set for a sensor, the table gives them back for that
/// sensor and gives every other sensor what it gave before.
pub proof fn lemma_with_threshold_lookup(table: Seq<ThresholdModel>, entry: ThresholdModel, other: Seq<char>)
    ensures
        threshold_of(with_threshold(table, entry), entry.sensor_id) == Some(
            (entry.min_temp, entry.max_temp),
        ),
        other != entry.sensor_id ==> threshold_of(with_threshold(table, entry), other) == threshold_of(
            table,
            other,
        ),
{
    let names = threshold_ids(table);
    let after = with_threshold(table, entry);
    let names_after = threshold_ids(after);
    crate::lookup::lemma_position_meaning(names, entry.sensor_id);
    crate::lookup::lemma_position_meaning(names, other);
    match position(names, entry.sensor_id) {
        Some(at) => {
            assert(names_after =~= names);
            assert(after[at] == entry);
        },
        None => {
            assert(names_after =~= names.push(entry.sensor_id));
            assert(first_at(names_after, entry.sensor_id, names.len() as int));
            lemma_position_found(names_after, entry.sensor_id, names.len() as int);
            if other != entry.sensor_id {
                match position(names, other) {
                    Some(k) => {
                        assert(first_at(names_after, other, k));
                        lemma_position_found(names_after, other, k);
                    },
                    None => {
                        lemma_position_missing(names_after, other);
                    },
                }
            }
        },
    }
}

/// Answers requests, one at a time, from a registry of sensors, a bounded
/// history of the readings it took, and a table of advisory bounds.
pub struct TemperatureProtocolHandler {
    next_message_id: u32,
    sensors: Vec<MockTemperatureSensor>,
    store: TemperatureStore,
    thresholds: Vec<Threshold>,
    start_time: Instant,
}

impl View for TemperatureProtocolHandler {
    type V = HandlerModel;

    closed spec fn view(&self) -> HandlerModel {
        HandlerModel {
            next_message_id: self.next_message_id,
            sensors: self.sensors@.map_values(|s: MockTemperatureSensor| s@),
            history: self.store@,
            capacity: self.store.capacity(),
            thresholds: self.thresholds@.map_values(|t: Threshold| t@),
        }
    }
}

/// The three sensors that a new handler knows, in registration order, each
/// online and reporting its set temperature.
pub open spec fn initial_sensors() -> Seq<MockSensorModel> {
    seq![
        MockSensorModel { id: "temp_01"@, temperature: 23_500, fail_next: false, offline: false },
        MockSensorModel { id: "temp_02"@, temperature: 21_800, fail_next: false, offline: false },
        MockSensorModel { id: "temp_03"@, temperature: 25_100, fail_next: false, offline: false },
    ]
}

/// A handler is in order where no two sensors have the same name, no sensor
/// has bounds twice, and the history respects its capacity.
pub open spec fn in_order(handler: HandlerModel) -> bool {
    &&& sensor_ids(handler.sensors).no_duplicates()
    &&& threshold_ids(handler.thresholds).no_duplicates()
    &&& handler.history.len() <= handler.capacity
}

/// A command leaves a handler that is in order in order, and never changes
/// the names of the registered sensors.
pub proof fn lemma_respond_keeps_order(state: HandlerModel, command: CommandModel, now: u64, uptime: u64)
    requires
        in_order(state),
    ensures
        in_order(respond(state, command, now, uptime).0),
        sensor_ids(respond(state, command, now, uptime).0.sensors) == sensor_ids(state.sensors),
        respond(state, command, now, uptime).0.capacity == state.capacity,
        respond(state, command, now, uptime).0.next_message_id == state.next_message_id,
{
    let next = respond(state, command, now, uptime).0;
    match command {
        CommandModel::GetReading { sensor_id } => {
            lemma_position_meaning(sensor_ids(state.sensors), sensor_id);
            assert(sensor_ids(next.sensors) =~= sensor_ids(state.sensors));
        },
        CommandModel::Calibrate { sensor_id, .. } => {
            lemma_position_meaning(sensor_ids(state.sensors), sensor_id);
            assert(sensor_ids(next.sensors) =~= sensor_ids(state.sensors));
        },
        CommandModel::SetThreshold { sensor_id, min_temp, max_temp } => {
            let names = threshold_ids(state.thresholds);
            lemma_position_meaning(names, sensor_id);
            if min_temp < max_temp && position(sensor_ids(state.sensors), sensor_id) is Some {
                match position(names, sensor_id) {
                    Some(at) => {
                        assert(threshold_ids(next.thresholds) =~= names);
                    },
                    None => {
                        lemma_push_keeps_distinct(names, sensor_id);
                        assert(threshold_ids(next.thresholds) =~= names.push(sensor_id));
                    },
                }
            }
        },
        _ => {},
    }
}

/// The three sensors of a new handler have three different names.
pub proof fn lemma_initial_sensors_distinct()
    ensures
        sensor_ids(initial_sensors()).no_duplicates(),
        sensor_ids(initial_sensors()) == seq!["temp_01"@, "temp_02"@, "temp_03"@],
{
    reveal_strlit("temp_01");
    reveal_strlit("temp_02");
    reveal_strlit("temp_03");
    let names = sensor_ids(initial_sensors());
    assert(names =~= seq!["temp_01"@, "temp_02"@, "temp_03"@]);
    assert("temp_01"@[6] == '1' && "temp_02"@[6] == '2' && "temp_03"@[6] == '3');
}

impl TemperatureProtocolHandler {
    /// The handler is in order.
    pub closed spec fn wf(&self) -> bool {
        self.store.wf() && in_order(self@)
    }

    /// A handler that is well formed is in order.
    pub proof fn lemma_wf(&self)
        requires
            self.wf(),
        ensures
            in_order(self@),
    {
    }

    /// A handler with its three sensors, an empty history of a hundred
    /// readings, no bounds, and the correlation counter at one.
    pub fn new() -> (handler: TemperatureProtocolHandler)
        ensures
            handler.wf(),
            handler@ == (HandlerModel {
                next_message_id: 1,
                sensors: initial_sensors(),
                history: Seq::empty(),
                capacity: HISTORY_CAPACITY as nat,
                thresholds: Seq::empty(),
            }),
    {
        let mut sensors: Vec<MockTemperatureSensor> = Vec::new();
        sensors.push(MockTemperatureSensor::new("temp_01".to_string(), 23_500));
        sensors.push(MockTemperatureSensor::new("temp_02".to_string(), 21_800));
        sensors.push(MockTemperatureSensor::new("temp_03".to_string(), 25_100));
        let handler = TemperatureProtocolHandler {
            next_message_id: 1,
            sensors,
            store: TemperatureStore::new(HISTORY_CAPACITY),
            thresholds: Vec::new(),
            start_time: Instant::now(),
        };
        assert(handler@.sensors =~= initial_sensors());
        assert(handler@.thresholds =~= Seq::empty());
        proof {
            lemma_initial_sensors_distinct();
        }
        handler
    }

    /// The correlation number that the next command will carry.
    pub fn next_message_id(&self) -> (id: u32)
        ensures
            id == self@.next_message_id,
    {
        self.next_message_id
    }

    /// An envelope that carries `command` under the next correlation number.
    /// The counter must not have run out.
    pub fn create_command(&mut self, command: Command) -> (message: ProtocolMessage)
        requires
            old(self)@.next_message_id < u32::MAX,
        ensures
            message@ == (MessageModel {
                version: PROTOCOL_VERSION,
                id: old(self)@.next_message_id,
                payload: PayloadModel::Command(command@),
            }),
            final(self)@ == (HandlerModel {
                next_message_id: (old(self)@.next_message_id + 1) as u32,
                ..old(self)@
            }),
            old(self).wf() ==> final(self).wf(),
    {
        let id = self.next_message_id;
        self.next_message_id = self.next_message_id + 1;
        ProtocolMessage { version: 1, id, payload: MessagePayload::Command(command) }
    }

    /// An envelope that carries `response` as the answer to request
    /// `request_id`.
    pub fn create_response(&self, request_id: u32, response: Response) -> (message: ProtocolMessage)
        ensures
            message@ == response_envelope(request_id, response@),
    {
        ProtocolMessage { version: 1, id: request_id, payload: MessagePayload::Response(response) }
    }

    /// The place of the sensor named `sensor_id` in the registry.
    fn find_sensor(&self, sensor_id: &str) -> (found: Option<usize>)
        ensures
            match found {
                Some(at) => position(sensor_ids(self@.sensors), sensor_id@) == Some(at as int),
                None => position(sensor_ids(self@.sensors), sensor_id@) is None,
            },
    {
        let ghost names = sensor_ids(self@.sensors);
        let mut i: usize = 0;
        while i < self.sensors.len()
            invariant
                i <= self.sensors.len(),
                names == sensor_ids(self@.sensors),
                names.len() == self.sensors.len(),
                forall|j: int| 0 <= j < i ==> names[j] != sensor_id@,
            decreases self.sensors.len() - i,
        {
            if str_eq(self.sensors[i].sensor_id(), sensor_id) {
                proof {
                    assert(names[i as int] == sensor_id@);
                    lemma_position_found(names, sensor_id@, i as int);
                }
                return Some(i);
            }
            i = i + 1;
        }
        proof {
            lemma_position_missing(names, sensor_id@);
        }
        None
    }

    /// The place of the bounds of the sensor named `sensor_id` in the table.
    fn find_threshold(&self, sensor_id: &str) -> (found: Option<usize>)
        ensures
            match found {
                Some(at) => position(threshold_ids(self@.thresholds), sensor_id@) == Some(at as int),
                None => position(threshold_ids(self@.thresholds), sensor_id@) is None,
            },
    {
        let ghost names = threshold_ids(self@.thresholds);
        let mut i: usize = 0;
        while i < self.thresholds.len()
            invariant
                i <= self.thresholds.len(),
                names == threshold_ids(self@.thresholds),
                names.len() == self.thresholds.len(),
                forall|j: int| 0 <= j < i ==> names[j] != sensor_id@,
            decreases self.thresholds.len() - i,
        {
            if str_eq(self.thresholds[i].sensor_id.as_str(), sensor_id) {
                proof {
                    assert(names[i as int] == sensor_id@);
                    lemma_position_found(names, sensor_id@, i as int);
                }
                return Some(i);
            }
            i = i + 1;
        }
        proof {
            lemma_position_missing(names, sensor_id@);
        }
        None
    }

    /// The bounds that were set for the sensor named `sensor_id`, if any.
    pub fn get_threshold(&self, sensor_id: &str) -> (bounds: Option<(i32, i32)>)
        ensures
            bounds == threshold_of(self@.thresholds, sensor_id@),
    {
        match self.find_threshold(sensor_id) {
            Some(at) => Some((self.thresholds[at].min_temp, self.thresholds[at].max_temp)),
            None => None,
        }
    }

    /// The names of the registered sensors, in registration order.
    fn sensor_names(&self) -> (names: Vec<String>)
        ensures
            texts(names@) == sensor_ids(self@.sensors),
    {
        let mut names: Vec<String> = Vec::new();
        let mut i: usize = 0;
        while i < self.sensors.len()
            invariant
                i <= self.sensors.len(),
                names@.len() == i,
                forall|j: int| 0 <= j < i ==> names@[j]@ == self.sensors@[j]@.id,
            decreases self.sensors.len() - i,
        {
            names.push(self.sensors[i].sensor_id().to_string());
            i = i + 1;
        }
        assert(texts(names@) =~= sensor_ids(self@.sensors));
        names
    }

    /// Answers `command` as a handler would whose clock reads `now` seconds
    /// and that has been up for `uptime` seconds.
    pub fn handle_command_at(&mut self, command: Command, now: u64, uptime: u64) -> (response: Response)
        requires
            old(self).wf(),
        ensures
            final(self).wf(),
            (final(self)@, response@) == respond(old(self)@, command@, now, uptime),
    {
        proof {
            lemma_respond_keeps_order(old(self)@, command@, now, uptime);
        }
        match command {
            Command::GetStatus => {
                let active_sensors = self.sensor_names();
                Response::Status {
                    active_sensors,
                    uptime_seconds: uptime,
                    readings_count: self.store.reading_count(),
                }
            },
            Command::GetReading { sensor_id } => {
                match self.find_sensor(sensor_id.as_str()) {
                    Some(at) => {
                        let outcome = self.sensors[at].read_temperature();
                        assert(self@.sensors =~= old(self)@.sensors.update(
                            at as int,
                            mock_read(old(self)@.sensors[at as int]).0,
                        ));
                        match outcome {
                            Ok(temperature) => {
                                let reading = TemperatureReading::with_timestamp(temperature, now);
                                self.store.add_reading(reading);
                                assert(self@ =~= respond(old(self)@, command@, now, uptime).0);
                                Response::Reading {
                                    sensor_id,
                                    temperature: temperature.millicelsius,
                                    timestamp: now,
                                }
                            },
                            Err(_) => {
                                assert(self@ =~= respond(old(self)@, command@, now, uptime).0);
                                let error = ProtocolError::SensorNotResponding { sensor_id };
                                error.to_response()
                            },
                        }
                    },
                    None => {
                        let error = ProtocolError::InvalidSensorId { sensor_id };
                        error.to_response()
                    },
                }
            },
            Command::SetThreshold { sensor_id, min_temp, max_temp } => {
                if min_temp >= max_temp {
                    let error = ProtocolError::InvalidThreshold {
                        min: min_temp,
                        max: max_temp,
                        reason: "Min temperature must be less than max temperature".to_string(),
                    };
                    return error.to_response();
                }
                if self.find_sensor(sensor_id.as_str()).is_none() {
                    let error = ProtocolError::InvalidSensorId { sensor_id };
                    return error.to_response();
                }
                let entry = Threshold { sensor_id: sensor_id.clone(), min_temp, max_temp };
                match self.find_threshold(sensor_id.as_str()) {
                    Some(at) => {
                        self.thresholds.set(at, entry);
                    },
                    None => {
                        self.thresholds.push(entry);
                    },
                }
                assert(self@.thresholds =~= with_threshold(
                    old(self)@.thresholds,
                    ThresholdModel { sensor_id: sensor_id@, min_temp, max_temp },
                ));
                assert(self@ =~= respond(old(self)@, command@, now, uptime).0);
                Response::ThresholdSet { sensor_id, min_temp, max_temp }
            },
            Command::GetHistory { sensor_id, last_n } => {
                if self.find_sensor(sensor_id.as_str()).is_none() {
                    let error = ProtocolError::InvalidSensorId { sensor_id };
                    return error.to_response();
                }
                let readings = self.store.get_recent_readings(last_n);
                Response::History { sensor_id, readings }
            },
            Command::GetStats { sensor_id } => {
                if self.find_sensor(sensor_id.as_str()).is_none() {
                    let error = ProtocolError::InvalidSensorId { sensor_id };
                    return error.to_response();
                }
                let stats = self.store.get_stats();
                Response::Stats { sensor_id, stats }
            },
            Command::Calibrate { sensor_id, actual_temp } => {
                match self.find_sensor(sensor_id.as_str()) {
                    Some(at) => {
                        let outcome = self.sensors[at].read_temperature();
                        match outcome {
                            Ok(measured) => {
                                let offset: i64 = actual_temp as i64 - measured.millicelsius as i64;
                                self.sensors[at].set_base_temperature(actual_temp);
                                assert(self@ =~= respond(old(self)@, command@, now, uptime).0);
                                Response::CalibrationComplete { sensor_id, offset_adjustment: offset }
                            },
                            Err(_) => {
                                assert(self@ =~= respond(old(self)@, command@, now, uptime).0);
                                let error = ProtocolError::CalibrationFailed {
                                    sensor_id,
                                    reason: "Sensor not responding during calibration".to_string(),
                                };
                                error.to_response()
                            },
                        }
                    },
                    None => {
                        let error = ProtocolError::InvalidSensorId { sensor_id };
                        error.to_response()
                    },
                }
            },
        }
    }

    /// Answers `message` as a handler would whose clock reads `now` seconds
    /// and that has been up for `uptime` seconds.
    pub fn process_command_at(&mut self, message: ProtocolMessage, now: u64, uptime: u64) -> (answer:
        ProtocolMessage)
        requires
            old(self).wf(),
        ensures
            final(self).wf(),
            (final(self)@, answer@) == process(old(self)@, message@, now, uptime),
    {
        if message.version != 1 {
            let error = ProtocolError::ProtocolVersionMismatch { expected: 1, received: message.version };
            return self.create_response(message.id, error.to_response());
        }
        let response = match message.payload {
            MessagePayload::Command(command) => self.handle_command_at(command, now, uptime),
            MessagePayload::Response(_) => Response::Error {
                code: 400,
                message: "Cannot process response messages".to_string(),
            },
        };
        self.create_response(message.id, response)
    }

    /// Answers `message`.  The clock is read once for the time of a reading
    /// and once for the uptime; whatever the two say, the answer and the
    /// handler's new state are those of `process` for some pair of clock
    /// values.
    pub fn process_command(&mut self, message: ProtocolMessage) -> (answer: ProtocolMessage)
        requires
            old(self).wf(),
        ensures
            final(self).wf(),
            exists|now: u64, uptime: u64|
                (final(self)@, answer@) == #[trigger] process(old(self)@, message@, now, uptime),
            answer@.version == PROTOCOL_VERSION,
            answer@.id == message@.id,
            answer@.payload is Response,
    {
        let now = unix_time_seconds();
        let uptime = seconds_since(&self.start_time);
        self.process_command_at(message, now, uptime)
    }
}

impl Default for TemperatureProtocolHandler {
    fn default() -> (handler: TemperatureProtocolHandler)
        ensures
            handler.wf(),
            handler@.next_message_id == 1,
            handler@.sensors == initial_sensors(),
            handler@.history.len() == 0,
            handler@.thresholds.len() == 0,
    {
        TemperatureProtocolHandler::new()
    }
}

} // verus!
