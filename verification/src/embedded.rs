//! The fixed-capacity variants for constrained targets: a ring of readings
//! with a counter of everything it ever saw, and a handler for a compact
//! command vocabulary whose errors are small numeric codes.
use vstd::prelude::*;
use crate::store::{
    floor_div, greatest, keep_latest, least, lemma_greatest_is_maximum, lemma_least_is_minimum,
    lemma_mean_between, mean, total,
};
use crate::temperature::Temperature;

verus! {

/// The system clock, in hertz.
pub const SYSTEM_CLOCK_HZ: u32 = 16_000_000;

/// The default sampling rate, in hertz.
pub const SAMPLE_RATE_HZ: u32 = 10;

/// Clock ticks between two samples at the default rate.
pub const TIMER_DIVISOR: u32 = SYSTEM_CLOCK_HZ / SAMPLE_RATE_HZ;

/// The number of readings that the default ring holds.
pub const READING_BUFFER_SIZE: usize = 64;

/// The converter count at 5 degrees Celsius.
pub const TEMP_THRESHOLD_LOW: u16 = 62;

/// The converter count at 35 degrees Celsius.
pub const TEMP_THRESHOLD_HIGH: u16 = 434;

/// The converter count at 50 degrees Celsius.
pub const TEMP_CRITICAL: u16 = 620;

/// The highest sampling rate that can be set, in hertz.
pub const MAX_SAMPLE_RATE_HZ: u32 = 1000;

/// One measurement: a temperature and the seconds since boot at which it
/// was taken.
#[derive(Debug, Clone, Copy, PartialEq, Eq, Structural)]
pub struct EmbeddedTemperatureReading {
    pub temperature: Temperature,
    pub timestamp: u32,
}

impl EmbeddedTemperatureReading {
    /// A reading of `temperature` taken `timestamp` seconds after boot.
    pub fn new(temperature: Temperature, timestamp: u32) -> (reading: EmbeddedTemperatureReading)
        ensures
            reading == (EmbeddedTemperatureReading { temperature, timestamp }),
    {
        EmbeddedTemperatureReading { temperature, timestamp }
    }
}

/// Minimum, maximum and mean of a set of readings, and how many there were.
#[derive(Debug, Clone, Copy, PartialEq, Eq, Structural)]
pub struct EmbeddedTemperatureStats {
    pub min: Temperature,
    pub max: Temperature,
    pub average: Temperature,
    pub count: usize,
}

/// The temperatures of a ring, in thousandths of a degree.
pub open spec fn ring_values(readings: Seq<EmbeddedTemperatureReading>) -> Seq<int> {
    readings.map_values(|r: EmbeddedTemperatureReading| r.temperature.millicelsius as int)
}

/// The statistics of a ring: all zero for an empty one, otherwise the
/// least, the greatest and the mean of its temperatures, and their number.
pub open spec fn ring_stats(readings: Seq<EmbeddedTemperatureReading>) -> EmbeddedTemperatureStats {
    if readings.len() == 0 {
        EmbeddedTemperatureStats {
            min: Temperature { millicelsius: 0 },
            max: Temperature { millicelsius: 0 },
            average: Temperature { millicelsius: 0 },
            count: 0,
        }
    } else {
        EmbeddedTemperatureStats {
            min: Temperature { millicelsius: least(ring_values(readings)) as i32 },
            max: Temperature { millicelsius: greatest(ring_values(readings)) as i32 },
            average: Temperature { millicelsius: mean(ring_values(readings)) as i32 },
            count: readings.len() as usize,
        }
    }
}

/// What a ring holds: its readings, oldest first, and the number of
/// readings it ever received.
#[verifier::ext_equal]
pub struct RingModel {
    pub readings: Seq<EmbeddedTemperatureReading>,
    pub total_readings: u32,
}

/// A ring of at most `N` readings in arrival order, with a counter of every
/// reading that it ever received.  A reading that arrives at a full ring
/// pushes the oldest one out.
pub struct EmbeddedTemperatureStore<const N: usize> {
    readings: Vec<EmbeddedTemperatureReading>,
    total_readings: u32,
}

impl<const N: usize> View for EmbeddedTemperatureStore<N> {
    type V = RingModel;

    closed spec fn view(&self) -> RingModel {
        RingModel { readings: self.readings@, total_readings: self.total_readings }
    }
}

impl<const N: usize> EmbeddedTemperatureStore<N> {
    /// The ring holds no more than `N` readings.
    pub closed spec fn wf(&self) -> bool {
        self.readings@.len() <= N
    }

    /// An empty ring that has seen nothing.
    pub fn new() -> (ring: Self)
        ensures
            ring.wf(),
            ring@ == (RingModel { readings: Seq::empty(), total_readings: 0 }),
    {
        EmbeddedTemperatureStore { readings: Vec::new(), total_readings: 0 }
    }

    /// Counts `reading` and adds it at the end.  A ring that is already
    /// full first drops its oldest reading.  Only a ring without any room,
    /// `N == 0`, refuses the reading.  The counter must not have run out.
    pub fn add_reading(&mut self, reading: EmbeddedTemperatureReading) -> (outcome: Result<
        (),
        &'static str,
    >)
        requires
            old(self).wf(),
            old(self)@.total_readings < u32::MAX,
        ensures
            final(self).wf(),
            final(self)@.total_readings == old(self)@.total_readings + 1,
            final(self)@.readings == keep_latest(old(self)@.readings.push(reading), N as nat),
            N > 0 ==> outcome is Ok,
            N == 0 ==> (outcome matches Err(words) && words@ == "Storage full"@),
    {
        self.total_readings = self.total_readings + 1;
        if N == 0 {
            assert(self@.readings =~= keep_latest(old(self)@.readings.push(reading), N as nat));
            return Err("Storage full");
        }
        if self.readings.len() >= N {
            self.readings.remove(0);
        }
        self.readings.push(reading);
        assert(self@.readings =~= keep_latest(old(self)@.readings.push(reading), N as nat));
        Ok(())
    }

    /// The reading added last, or none where the ring is empty.
    pub fn get_latest(&self) -> (latest: Option<EmbeddedTemperatureReading>)
        ensures
            latest == (if self@.readings.len() == 0 {
                None
            } else {
                Some(self@.readings.last())
            }),
    {
        let n = self.readings.len();
        if n == 0 {
            None
        } else {
            Some(self.readings[n - 1])
        }
    }

    /// The statistics of the readings held; all zero where the ring is
    /// empty.
    pub fn get_stats(&self) -> (stats: EmbeddedTemperatureStats)
        ensures
            stats == ring_stats(self@.readings),
    {
        let n = self.readings.len();
        if n == 0 {
            return EmbeddedTemperatureStats {
                min: Temperature { millicelsius: 0 },
                max: Temperature { millicelsius: 0 },
                average: Temperature { millicelsius: 0 },
                count: 0,
            };
        }
        let ghost held = ring_values(self@.readings);
        let mut low: i32 = self.readings[0].temperature.millicelsius;
        let mut high: i32 = low;
        let mut sum: i128 = 0;
        let mut i: usize = 0;
        assert(held.take(0) =~= Seq::<int>::empty());
        while i < n
            invariant
                n == self.readings.len(),
                n > 0,
                held == ring_values(self@.readings),
                i <= n,
                sum == total(held.take(i as int)),
                -(i as int) * 0x8000_0000 <= sum <= (i as int) * 0x8000_0000,
                i == 0 ==> low == held[0] && high == held[0],
                i > 0 ==> low == least(held.take(i as int)) && high == greatest(held.take(i as int)),
            decreases n - i,
        {
            let value: i32 = self.readings[i].temperature.millicelsius;
            proof {
                let before = held.take(i as int);
                let now = held.take(i as int + 1);
                assert(now.drop_last() =~= before);
                assert(now.last() == value);
                assert(held[i as int] == value);
            }
            if i == 0 {
                low = value;
                high = value;
            } else {
                if value < low {
                    low = value;
                }
                if value > high {
                    high = value;
                }
            }
            sum = sum + value as i128;
            i = i + 1;
        }
        assert(held.take(n as int) =~= held);
        proof {
            lemma_mean_between(held);
            lemma_least_is_minimum(held);
            lemma_greatest_is_maximum(held);
        }
        let average: i128 = floor_div(sum, n as i128);
        EmbeddedTemperatureStats {
            min: Temperature { millicelsius: low },
            max: Temperature { millicelsius: high },
            average: Temperature { millicelsius: average as i32 },
            count: n,
        }
    }

    /// Removes every reading.  The counter of readings seen stays.
    pub fn clear(&mut self)
        ensures
            final(self).wf(),
            final(self)@ == (RingModel { readings: Seq::empty(), ..old(self)@ }),
    {
        self.readings.clear();
    }

    /// The number of readings that the ring holds at most.
    pub fn capacity(&self) -> (capacity: usize)
        ensures
            capacity == N,
    {
        N
    }

    /// The number of readings held.
    pub fn len(&self) -> (count: usize)
        ensures
            count == self@.readings.len(),
    {
        self.readings.len()
    }

    /// Whether the ring holds as many readings as it can.
    pub fn is_full(&self) -> (full: bool)
        ensures
            full == (self@.readings.len() >= N),
    {
        self.readings.len() >= N
    }

    /// Whether the ring holds no reading.
    pub fn is_empty(&self) -> (empty: bool)
        ensures
            empty == (self@.readings.len() == 0),
    {
        self.readings.len() == 0
    }

    /// The number of readings that the ring ever received.
    pub fn total_readings(&self) -> (total: u32)
        ensures
            total == self@.total_readings,
    {
        self.total_readings
    }

    /// The readings held, oldest first.
    pub fn get_readings(&self) -> (readings: &[EmbeddedTemperatureReading])
        ensures
            readings@ == self@.readings,
    {
        self.readings.as_slice()
    }
}

/// A well-formed ring holds no more than `N` readings.
pub proof fn lemma_ring_within_capacity<const N: usize>(ring: EmbeddedTemperatureStore<N>)
    requires
        ring.wf(),
    ensures
        ring@.readings.len() <= N,
{
}

/// Clock ticks between two samples: the clock rate divided by the wanted
/// rate, rounded down.  The wanted rate must not be zero.
pub fn calculate_sample_rate(desired_hz: u32, clock_hz: u32) -> (ticks: u32)
    requires
        desired_hz > 0,
    ensures
        ticks == clock_hz / desired_hz,
{
    clock_hz / desired_hz
}

/// `size` is a power of two.
pub open spec fn is_power_of_two(size: usize) -> bool {
    size > 0 && size & ((size - 1) as usize) == 0
}

/// Hands back a buffer size that is acceptable: a power of two from 1 to
/// 1024.  Any other size must not be passed.
pub fn validate_buffer_size(size: usize) -> (valid: usize)
    requires
        0 < size <= 1024,
        is_power_of_two(size),
    ensures
        valid == size,
{
    size
}

/// The converter count that stands for a temperature: its share of full
/// scale, rounded toward zero, and held to the range of the count.
pub open spec fn adc_count(millicelsius: int) -> int {
    if millicelsius <= 0 {
        0
    } else if millicelsius * 4095 / 330_000 > 65535 {
        65535
    } else {
        millicelsius * 4095 / 330_000
    }
}

/// The converter count that stands for `temperature`.
pub fn celsius_to_adc_value(temperature: Temperature) -> (count: u16)
    ensures
        count == adc_count(temperature.millicelsius as int),
{
    if temperature.millicelsius <= 0 {
        return 0;
    }
    let scaled: i64 = temperature.millicelsius as i64 * 4095;
    let count: i64 = scaled / 330_000;
    if count > 65535 {
        65535
    } else {
        count as u16
    }
}

/// The default configuration is consistent: the timer divisor is the clock
/// rate over the default sampling rate, the default ring size is
/// acceptable, and the three thresholds are the converter counts of 5, 35
/// and 50 degrees, in rising order.
pub proof fn lemma_default_configuration()
    ensures
        TIMER_DIVISOR == 1_600_000,
        TIMER_DIVISOR == SYSTEM_CLOCK_HZ / SAMPLE_RATE_HZ,
        0 < READING_BUFFER_SIZE <= 1024,
        is_power_of_two(READING_BUFFER_SIZE),
        TEMP_THRESHOLD_LOW == adc_count(5_000),
        TEMP_THRESHOLD_HIGH == adc_count(35_000),
        TEMP_CRITICAL == adc_count(50_000),
        TEMP_THRESHOLD_LOW < TEMP_THRESHOLD_HIGH < TEMP_CRITICAL,
{
    assert(64usize & 63usize == 0) by (bit_vector);
}

/// A request to the embedded handler.
#[derive(Debug, Clone, Copy, PartialEq, Eq, Structural)]
pub enum EmbeddedCommand {
    GetStatus,
    GetLatestReading,
    GetReadingCount,
    GetStats,
    ClearReadings,
    SetSampleRate(u32),
}

/// An answer of the embedded handler.  Errors are numeric codes.
#[derive(Debug, Clone, Copy, PartialEq, Eq, Structural)]
pub enum EmbeddedResponse {
    Status { uptime_seconds: u32, reading_count: u32, sample_rate: u32, buffer_usage: u8 },
    Reading(EmbeddedTemperatureReading),
    ReadingCount(u32),
    Stats(EmbeddedTemperatureStats),
    Cleared,
    SampleRateSet(u32),
    Error(u8),
}

/// What can go wrong on a constrained target.
#[derive(Debug, Clone, Copy, PartialEq, Eq, Structural)]
pub enum EmbeddedError {
    BufferFull,
    InvalidSampleRate,
    SensorTimeout,
    InvalidCommand,
    SerializationError,
    NoReadings,
}

/// The numeric code of an error.
pub open spec fn code_of(error: EmbeddedError) -> u8 {
    match error {
        EmbeddedError::BufferFull => 1,
        EmbeddedError::InvalidSampleRate => 2,
        EmbeddedError::SensorTimeout => 3,
        EmbeddedError::InvalidCommand => 4,
        EmbeddedError::SerializationError => 5,
        EmbeddedError::NoReadings => 6,
    }
}

impl EmbeddedError {
    /// The numeric code of this error.
    pub fn error_code(&self) -> (code: u8)
        ensures
            code == code_of(*self),
    {
        match self {
            EmbeddedError::BufferFull => 1,
            EmbeddedError::InvalidSampleRate => 2,
            EmbeddedError::SensorTimeout => 3,
            EmbeddedError::InvalidCommand => 4,
            EmbeddedError::SerializationError => 5,
            EmbeddedError::NoReadings => 6,
        }
    }

    /// The words for this error.
    pub fn description(&self) -> (words: &'static str)
        ensures
            words@ == (match *self {
                EmbeddedError::BufferFull => "Buffer full"@,
                EmbeddedError::InvalidSampleRate => "Invalid sample rate"@,
                EmbeddedError::SensorTimeout => "Sensor timeout"@,
                EmbeddedError::InvalidCommand => "Invalid command"@,
                EmbeddedError::SerializationError => "Serialization error"@,
                EmbeddedError::NoReadings => "No readings available"@,
            }),
    {
        match self {
            EmbeddedError::BufferFull => "Buffer full",
            EmbeddedError::InvalidSampleRate => "Invalid sample rate",
            EmbeddedError::SensorTimeout => "Sensor timeout",
            EmbeddedError::InvalidCommand => "Invalid command",
            EmbeddedError::SerializationError => "Serialization error",
            EmbeddedError::NoReadings => "No readings available",
        }
    }
}

/// No two errors share a code.
pub proof fn lemma_error_codes_distinct(a: EmbeddedError, b: EmbeddedError)
    ensures
        code_of(a) == code_of(b) ==> a == b,
        1 <= code_of(a) <= 6,
{
}

/// What an embedded handler holds: its ring, the sampling rate, and the
/// time at which it was started.
#[verifier::ext_equal]
pub struct EmbeddedHandlerModel {
    pub ring: RingModel,
    pub sample_rate: u32,
    pub start_time: u32,
}

/// The share of a ring of `capacity` readings that `held` readings take, in
/// whole percent; zero for a ring without room.
pub open spec fn buffer_usage(held: nat, capacity: nat) -> int {
    if capacity > 0 {
        (held as int) * 100 / (capacity as int)
    } else {
        0
    }
}

/// The answer to a command at time `current_time` and the handler's state
/// after it, for a handler whose ring has room for `capacity` readings.
pub open spec fn embedded_respond(
    state: EmbeddedHandlerModel,
    capacity: nat,
    command: EmbeddedCommand,
    current_time: u32,
) -> (EmbeddedHandlerModel, EmbeddedResponse) {
    match command {
        EmbeddedCommand::GetStatus => (
            state,
            EmbeddedResponse::Status {
                uptime_seconds: if current_time >= state.start_time {
                    (current_time - state.start_time) as u32
                } else {
                    0
                },
                reading_count: state.ring.total_readings,
                sample_rate: state.sample_rate,
                buffer_usage: buffer_usage(state.ring.readings.len(), capacity) as u8,
            },
        ),
        EmbeddedCommand::GetLatestReading => (
            state,
            if state.ring.readings.len() == 0 {
                EmbeddedResponse::Error(code_of(EmbeddedError::NoReadings))
            } else {
                EmbeddedResponse::Reading(state.ring.readings.last())
            },
        ),
        EmbeddedCommand::GetReadingCount => (
            state,
            EmbeddedResponse::ReadingCount(state.ring.total_readings),
        ),
        EmbeddedCommand::GetStats => (state, EmbeddedResponse::Stats(ring_stats(state.ring.readings))),
        EmbeddedCommand::ClearReadings => (
            EmbeddedHandlerModel {
                ring: RingModel { readings: Seq::empty(), ..state.ring },
                ..state
            },
            EmbeddedResponse::Cleared,
        ),
        EmbeddedCommand::SetSampleRate(rate) => if 0 < rate <= MAX_SAMPLE_RATE_HZ {
            (EmbeddedHandlerModel { sample_rate: rate, ..state }, EmbeddedResponse::SampleRateSet(rate))
        } else {
            (state, EmbeddedResponse::Error(code_of(EmbeddedError::InvalidSampleRate)))
        },
    }
}

/// Answers the compact command vocabulary from a ring of at most `N`
/// readings.
pub struct EmbeddedProtocolHandler<const N: usize> {
    store: EmbeddedTemperatureStore<N>,
    sample_rate: u32,
    start_time: u32,
}

impl<const N: usize> View for EmbeddedProtocolHandler<N> {
    type V = EmbeddedHandlerModel;

    closed spec fn view(&self) -> EmbeddedHandlerModel {
        EmbeddedHandlerModel {
            ring: self.store@,
            sample_rate: self.sample_rate,
            start_time: self.start_time,
        }
    }
}

/// A ring's occupancy in percent never exceeds a hundred.
pub proof fn lemma_buffer_usage_bounds(held: nat, capacity: nat)
    requires
        held <= capacity,
    ensures
        0 <= buffer_usage(held, capacity) <= 100,
{
    if capacity > 0 {
        assert(0 <= (held as int) * 100 / (capacity as int) <= 100) by (nonlinear_arith)
            requires
                held <= capacity,
                capacity > 0,
        ;
    }
}

impl<const N: usize> EmbeddedProtocolHandler<N> {
    /// The handler's ring holds no more than `N` readings.
    pub closed spec fn wf(&self) -> bool {
        self.store.wf()
    }

    /// A handler with an empty ring, the default sampling rate, started at
    /// time zero.
    pub fn new() -> (handler: Self)
        ensures
            handler.wf(),
            handler@ == (EmbeddedHandlerModel {
                ring: RingModel { readings: Seq::empty(), total_readings: 0 },
                sample_rate: SAMPLE_RATE_HZ,
                start_time: 0,
            }),
    {
        EmbeddedProtocolHandler {
            store: EmbeddedTemperatureStore::new(),
            sample_rate: SAMPLE_RATE_HZ,
            start_time: 0,
        }
    }

    /// Sets the time at which the handler was started.
    pub fn init(&mut self, start_time: u32)
        ensures
            final(self)@ == (EmbeddedHandlerModel { start_time, ..old(self)@ }),
            old(self).wf() ==> final(self).wf(),
    {
        self.start_time = start_time;
    }

    /// Answers `command` at time `current_time`.
    pub fn process_command(&mut self, command: EmbeddedCommand, current_time: u32) -> (response:
        EmbeddedResponse)
        requires
            old(self).wf(),
        ensures
            final(self).wf(),
            (final(self)@, response) == embedded_respond(old(self)@, N as nat, command, current_time),
    {
        match command {
            EmbeddedCommand::GetStatus => {
                let uptime = if current_time >= self.start_time {
                    current_time - self.start_time
                } else {
                    0
                };
                let held = self.store.len();
                proof {
                    lemma_ring_within_capacity(self.store);
                    lemma_buffer_usage_bounds(held as nat, N as nat);
                }
                let usage: u8 = if N > 0 {
                    (held as u128 * 100 / (N as u128)) as u8
                } else {
                    0
                };
                EmbeddedResponse::Status {
                    uptime_seconds: uptime,
                    reading_count: self.store.total_readings(),
                    sample_rate: self.sample_rate,
                    buffer_usage: usage,
                }
            },
            EmbeddedCommand::GetLatestReading => {
                match self.store.get_latest() {
                    Some(reading) => EmbeddedResponse::Reading(reading),
                    None => EmbeddedResponse::Error(EmbeddedError::NoReadings.error_code()),
                }
            },
            EmbeddedCommand::GetReadingCount => EmbeddedResponse::ReadingCount(
                self.store.total_readings(),
            ),
            EmbeddedCommand::GetStats => EmbeddedResponse::Stats(self.store.get_stats()),
            EmbeddedCommand::ClearReadings => {
                self.store.clear();
                EmbeddedResponse::Cleared
            },
            EmbeddedCommand::SetSampleRate(rate) => {
                if rate > 0 && rate <= 1000 {
                    self.sample_rate = rate;
                    EmbeddedResponse::SampleRateSet(rate)
                } else {
                    EmbeddedResponse::Error(EmbeddedError::InvalidSampleRate.error_code())
                }
            },
        }
    }

    /// Counts a reading of `temperature` taken at `timestamp` and adds it to
    /// the ring, as the ring's own `add_reading` does.
    pub fn add_reading(&mut self, temperature: Temperature, timestamp: u32) -> (outcome: Result<
        (),
        &'static str,
    >)
        requires
            old(self).wf(),
            old(self)@.ring.total_readings < u32::MAX,
        ensures
            final(self).wf(),
            final(self)@ == (EmbeddedHandlerModel {
                ring: RingModel {
                    readings: keep_latest(
                        old(self)@.ring.readings.push(EmbeddedTemperatureReading { temperature, timestamp }),
                        N as nat,
                    ),
                    total_readings: (old(self)@.ring.total_readings + 1) as u32,
                },
                ..old(self)@
            }),
            N > 0 ==> outcome is Ok,
            N == 0 ==> (outcome matches Err(words) && words@ == "Storage full"@),
    {
        let reading = EmbeddedTemperatureReading::new(temperature, timestamp);
        self.store.add_reading(reading)
    }

    /// The handler's ring.
    pub fn get_store(&self) -> (ring: &EmbeddedTemperatureStore<N>)
        ensures
            ring@ == self@.ring,
            self.wf() ==> ring.wf(),
    {
        &self.store
    }

    /// The sampling rate, in hertz.
    pub fn get_sample_rate(&self) -> (rate: u32)
        ensures
            rate == self@.sample_rate,
    {
        self.sample_rate
    }
}

impl<const N: usize> Default for EmbeddedProtocolHandler<N> {
    fn default() -> (handler: Self)
        ensures
            handler.wf(),
            handler@.ring.readings.len() == 0,
            handler@.ring.total_readings == 0,
            handler@.sample_rate == SAMPLE_RATE_HZ,
            handler@.start_time == 0,
    {
        EmbeddedProtocolHandler::new()
    }
}

} // verus!
