//! The sampling monitor as a state machine: what it decides when its timer
//! fires, when a sensor read comes back, and when a command arrives.  The
//! loop that waits for those events and carries out the actions lives
//! outside this library.
use vstd::prelude::*;
use crate::store::{after_add, stats_of, TemperatureReading, TemperatureStats, TemperatureStore};
use crate::temperature::Temperature;

verus! {

/// The number of commands that may wait in a monitor's queue.
pub const COMMAND_QUEUE_CAPACITY: usize = 32;

/// The delay of a scripted sensor's read, in milliseconds, unless another
/// is set.
pub const DEFAULT_READ_DELAY_MS: u64 = 100;

/// Why an asynchronous sensor gave no reading.
#[derive(Debug, Clone, Copy, PartialEq, Eq, Structural)]
pub enum AsyncSensorError {
    ReadFailed,
    Timeout,
}

/// A scripted sensor whose reads take time: it reports a set temperature
/// after a delay, and can be told to fail its next reading.
pub struct AsyncMockSensor {
    id: String,
    temperature: i32,
    read_delay_ms: u64,
    fail_next: bool,
}

/// What a scripted asynchronous sensor holds.
pub struct AsyncSensorModel {
    pub id: Seq<char>,
    pub temperature: i32,
    pub read_delay_ms: u64,
    pub fail_next: bool,
}

impl View for AsyncMockSensor {
    type V = AsyncSensorModel;

    closed spec fn view(&self) -> AsyncSensorModel {
        AsyncSensorModel {
            id: self.id@,
            temperature: self.temperature,
            read_delay_ms: self.read_delay_ms,
            fail_next: self.fail_next,
        }
    }
}

/// What a read does to a scripted asynchronous sensor once its delay has
/// passed, and what it yields: a sensor told to fail does so once and
/// forgets the order; otherwise the set temperature comes back.
pub open spec fn async_read(sensor: AsyncSensorModel) -> (
    AsyncSensorModel,
    Result<Temperature, AsyncSensorError>,
) {
    if sensor.fail_next {
        (AsyncSensorModel { fail_next: false, ..sensor }, Err(AsyncSensorError::ReadFailed))
    } else {
        (sensor, Ok(Temperature { millicelsius: sensor.temperature }))
    }
}

impl AsyncMockSensor {
    /// A sensor named `id` that reports `temperature`, in thousandths of a
    /// degree Celsius, after the default delay.
    pub fn new(id: String, temperature: i32) -> (sensor: AsyncMockSensor)
        ensures
            sensor@ == (AsyncSensorModel {
                id: id@,
                temperature,
                read_delay_ms: DEFAULT_READ_DELAY_MS,
                fail_next: false,
            }),
    {
        AsyncMockSensor { id, temperature, read_delay_ms: 100, fail_next: false }
    }

    /// The same sensor with a read delay of `delay_ms` milliseconds.
    pub fn with_delay(self, delay_ms: u64) -> (sensor: AsyncMockSensor)
        ensures
            sensor@ == (AsyncSensorModel { read_delay_ms: delay_ms, ..self@ }),
    {
        let mut sensor = self;
        sensor.read_delay_ms = delay_ms;
        sensor
    }

    /// Sets the temperature that the sensor reports.
    pub fn set_temperature(&mut self, temp: i32)
        ensures
            final(self)@ == (AsyncSensorModel { temperature: temp, ..old(self)@ }),
    {
        self.temperature = temp;
    }

    /// Makes the next read fail.
    pub fn fail_next_read(&mut self)
        ensures
            final(self)@ == (AsyncSensorModel { fail_next: true, ..old(self)@ }),
    {
        self.fail_next = true;
    }

    /// The time that a read takes, in milliseconds.
    pub fn read_delay_ms(&self) -> (delay: u64)
        ensures
            delay == self@.read_delay_ms,
    {
        self.read_delay_ms
    }

    /// The outcome of a read whose delay has passed.
    pub fn finish_read(&mut self) -> (outcome: Result<Temperature, AsyncSensorError>)
        ensures
            (final(self)@, outcome) == async_read(old(self)@),
    {
        if self.fail_next {
            self.fail_next = false;
            return Err(AsyncSensorError::ReadFailed);
        }
        Ok(Temperature::new(self.temperature))
    }

    /// The sensor's name.
    pub fn sensor_id(&self) -> (id: &str)
        ensures
            id@ == self@.id,
    {
        self.id.as_str()
    }
}

/// Whether a monitor still serves events.  `Stopped` is final.
#[derive(Debug, Clone, Copy, PartialEq, Eq, Structural)]
pub enum MonitorState {
    Running,
    Stopped,
}

/// A control command to a monitor.  Intervals are in milliseconds.
#[derive(Debug, Clone, Copy, PartialEq, Eq, Structural)]
pub enum MonitorCommand {
    SetInterval(u64),
    GetStats,
    GetLatest,
    Stop,
}

/// Something that a monitor's loop waited for and that has now happened.
#[derive(Debug, Clone, Copy, PartialEq, Eq, Structural)]
pub enum MonitorEvent {
    /// The sampling timer fired.
    Tick,
    /// The sensor read that a tick asked for came back with a temperature,
    /// at the given second.
    ReadSucceeded { temperature: Temperature, timestamp: u64 },
    /// The sensor read that a tick asked for failed.
    ReadFailed,
    /// A command arrived.
    Command(MonitorCommand),
    /// Every handle is gone: no command can arrive any more.
    ChannelClosed,
}

/// What a monitor's loop has to do after an event.
#[derive(Debug, Clone, Copy, PartialEq, Eq, Structural)]
pub enum MonitorAction {
    /// Read the sensor once and hand the outcome back as an event.
    ReadSensor,
    /// The reading was stored; wait for the next event.
    Stored(TemperatureReading),
    /// The read failed and nothing was stored; the next tick tries again.
    ReportFailure,
    /// Restart the sampling timer with this period, in milliseconds.
    RestartTimer(u64),
    /// A period of zero was asked for and refused; the timer stays.
    RefuseInterval,
    /// Send these statistics to the caller that asked.
    ReplyStats(Option<TemperatureStats>),
    /// Send this reading to the caller that asked.
    ReplyLatest(Option<TemperatureReading>),
    /// Leave the loop.
    Shutdown,
    /// The monitor has stopped: the event is dropped.
    Dropped,
}

/// What a monitor holds: whether it runs, its sampling period, and its
/// history with its capacity.
#[verifier::ext_equal]
pub struct MonitorModel {
    pub state: MonitorState,
    pub interval_ms: u64,
    pub history: Seq<TemperatureReading>,
    pub capacity: nat,
}

/// The monitor after an event, and what its loop has to do.
pub open spec fn monitor_step(monitor: MonitorModel, event: MonitorEvent) -> (MonitorModel, MonitorAction) {
    if monitor.state == MonitorState::Stopped {
        (monitor, MonitorAction::Dropped)
    } else {
        match event {
            MonitorEvent::Tick => (monitor, MonitorAction::ReadSensor),
            MonitorEvent::ReadSucceeded { temperature, timestamp } => {
                let reading = TemperatureReading { temperature, timestamp };
                (
                    MonitorModel {
                        history: after_add(monitor.history, monitor.capacity, reading),
                        ..monitor
                    },
                    MonitorAction::Stored(reading),
                )
            },
            MonitorEvent::ReadFailed => (monitor, MonitorAction::ReportFailure),
            MonitorEvent::Command(MonitorCommand::SetInterval(period)) => if period == 0 {
                (monitor, MonitorAction::RefuseInterval)
            } else {
                (MonitorModel { interval_ms: period, ..monitor }, MonitorAction::RestartTimer(period))
            },
            MonitorEvent::Command(MonitorCommand::GetStats) => (
                monitor,
                MonitorAction::ReplyStats(stats_of(monitor.history)),
            ),
            MonitorEvent::Command(MonitorCommand::GetLatest) => (
                monitor,
                MonitorAction::ReplyLatest(
                    if monitor.history.len() == 0 {
                        None
                    } else {
                        Some(monitor.history.last())
                    },
                ),
            ),
            MonitorEvent::Command(MonitorCommand::Stop) => (
                MonitorModel { state: MonitorState::Stopped, ..monitor },
                MonitorAction::Shutdown,
            ),
            MonitorEvent::ChannelClosed => (
                MonitorModel { state: MonitorState::Stopped, ..monitor },
                MonitorAction::Shutdown,
            ),
        }
    }
}

/// The monitor after a run of events, one after the other.
pub open spec fn monitor_run(monitor: MonitorModel, events: Seq<MonitorEvent>) -> MonitorModel
    decreases events.len(),
{
    if events.len() == 0 {
        monitor
    } else {
        monitor_run(monitor_step(monitor, events[0]).0, events.skip(1))
    }
}

/// A stop command, or the loss of every handle, stops a running monitor and
/// tells its loop to end.
pub proof fn lemma_stop_ends_the_loop(monitor: MonitorModel, event: MonitorEvent)
    requires
        monitor.state == MonitorState::Running,
        event == MonitorEvent::Command(MonitorCommand::Stop) || event == MonitorEvent::ChannelClosed,
    ensures
        monitor_step(monitor, event).0.state == MonitorState::Stopped,
        monitor_step(monitor, event).1 == MonitorAction::Shutdown,
        monitor_step(monitor, event).0.history == monitor.history,
{
}

/// Only a stop command or the loss of every handle stops a running monitor.
pub proof fn lemma_only_stop_ends_the_loop(monitor: MonitorModel, event: MonitorEvent)
    requires
        monitor.state == MonitorState::Running,
        monitor_step(monitor, event).0.state == MonitorState::Stopped,
    ensures
        event == MonitorEvent::Command(MonitorCommand::Stop) || event == MonitorEvent::ChannelClosed,
        monitor_step(monitor, event).1 == MonitorAction::Shutdown,
{
}

/// A stopped monitor processes nothing: whatever events still reach it, it
/// drops each of them and stays exactly as it was.
pub proof fn lemma_stopped_is_final(monitor: MonitorModel, events: Seq<MonitorEvent>)
    requires
        monitor.state == MonitorState::Stopped,
    ensures
        monitor_run(monitor, events) == monitor,
        forall|i: int| 0 <= i < events.len() ==> monitor_step(monitor, #[trigger] events[i]).1
            == MonitorAction::Dropped,
    decreases events.len(),
{
    if events.len() > 0 {
        lemma_stopped_is_final(monitor, events.skip(1));
    }
}

/// A change of the sampling period leaves the history as it was.
pub proof fn lemma_interval_keeps_history(monitor: MonitorModel, period: u64)
    ensures
        monitor_step(monitor, MonitorEvent::Command(MonitorCommand::SetInterval(period))).0.history
            == monitor.history,
{
}

/// A failed read leaves the monitor as it was and running.
pub proof fn lemma_failed_read_is_not_fatal(monitor: MonitorModel)
    ensures
        monitor_step(monitor, MonitorEvent::ReadFailed).0 == monitor,
{
}

/// The decisions of a sampling monitor.  It owns the history; the loop
/// around it owns the sensor, the timer and the command queue.
pub struct AsyncTemperatureMonitor {
    store: TemperatureStore,
    state: MonitorState,
    interval_ms: u64,
}

impl View for AsyncTemperatureMonitor {
    type V = MonitorModel;

    closed spec fn view(&self) -> MonitorModel {
        MonitorModel {
            state: self.state,
            interval_ms: self.interval_ms,
            history: self.store@,
            capacity: self.store.capacity(),
        }
    }
}

impl AsyncTemperatureMonitor {
    /// The monitor's history respects its capacity.
    pub closed spec fn wf(&self) -> bool {
        self.store.wf()
    }

    /// A running monitor with an empty history of `capacity` readings.  Its
    /// sampling period is unset, zero, until `start` sets it.
    pub fn new(capacity: usize) -> (monitor: AsyncTemperatureMonitor)
        ensures
            monitor.wf(),
            monitor@ == (MonitorModel {
                state: MonitorState::Running,
                interval_ms: 0,
                history: Seq::empty(),
                capacity: capacity as nat,
            }),
    {
        AsyncTemperatureMonitor {
            store: TemperatureStore::new(capacity),
            state: MonitorState::Running,
            interval_ms: 0,
        }
    }

    /// Sets the sampling period with which the loop starts, in milliseconds.
    /// A period of zero is refused: the monitor stays as it was and `false`
    /// comes back.
    pub fn start(&mut self, interval_ms: u64) -> (accepted: bool)
        ensures
            accepted == (interval_ms != 0),
            accepted ==> final(self)@ == (MonitorModel { interval_ms, ..old(self)@ }),
            !accepted ==> final(self)@ == old(self)@,
            old(self).wf() ==> final(self).wf(),
    {
        if interval_ms == 0 {
            return false;
        }
        self.interval_ms = interval_ms;
        true
    }

    /// Whether the monitor still serves events.
    pub fn state(&self) -> (state: MonitorState)
        ensures
            state == self@.state,
    {
        self.state
    }

    /// The sampling period, in milliseconds.
    pub fn interval_ms(&self) -> (period: u64)
        ensures
            period == self@.interval_ms,
    {
        self.interval_ms
    }

    /// The monitor's history.
    pub fn store(&self) -> (store: &TemperatureStore)
        ensures
            store@ == self@.history,
            store.capacity() == self@.capacity,
            self.wf() ==> store.wf(),
    {
        &self.store
    }

    /// Takes one event and says what the loop has to do.
    pub fn step(&mut self, event: MonitorEvent) -> (action: MonitorAction)
        requires
            old(self).wf(),
        ensures
            final(self).wf(),
            (final(self)@, action) == monitor_step(old(self)@, event),
    {
        match self.state {
            MonitorState::Stopped => {
                return MonitorAction::Dropped;
            },
            MonitorState::Running => {},
        }
        match event {
            MonitorEvent::Tick => MonitorAction::ReadSensor,
            MonitorEvent::ReadSucceeded { temperature, timestamp } => {
                let reading = TemperatureReading::with_timestamp(temperature, timestamp);
                self.store.add_reading(reading);
                MonitorAction::Stored(reading)
            },
            MonitorEvent::ReadFailed => MonitorAction::ReportFailure,
            MonitorEvent::Command(MonitorCommand::SetInterval(period)) => {
                if period == 0 {
                    MonitorAction::RefuseInterval
                } else {
                    self.interval_ms = period;
                    MonitorAction::RestartTimer(period)
                }
            },
            MonitorEvent::Command(MonitorCommand::GetStats) => MonitorAction::ReplyStats(
                self.store.calculate_stats(),
            ),
            MonitorEvent::Command(MonitorCommand::GetLatest) => MonitorAction::ReplyLatest(
                self.store.get_latest(),
            ),
            MonitorEvent::Command(MonitorCommand::Stop) => {
                self.state = MonitorState::Stopped;
                MonitorAction::Shutdown
            },
            MonitorEvent::ChannelClosed => {
                self.state = MonitorState::Stopped;
                MonitorAction::Shutdown
            },
        }
    }
}

} // verus!
