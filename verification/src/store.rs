//! The bounded history of readings: a first-in, first-out window over the
//! most recent measurements, with statistics computed on demand.
use vstd::prelude::*;
use crate::temperature::Temperature;
use crate::clock::unix_time_seconds;

verus! {

/// One measurement: a temperature and the second at which it was taken.
#[derive(Debug, Clone, Copy, PartialEq, Eq, Structural)]
pub struct TemperatureReading {
    pub temperature: Temperature,
    pub timestamp: u64,
}

/// Minimum, maximum and mean of a set of readings, and how many there were.
#[derive(Debug, Clone, Copy, PartialEq, Eq, Structural)]
pub struct TemperatureStats {
    pub min: Temperature,
    pub max: Temperature,
    pub average: Temperature,
    pub count: usize,
}

/// The last `capacity` items of `items`, or all of them where there are fewer.
pub open spec fn keep_latest<T>(items: Seq<T>, capacity: nat) -> Seq<T> {
    if items.len() > capacity {
        items.skip(items.len() - capacity)
    } else {
        items
    }
}

/// A store that is well formed holds no more readings than its capacity.
pub proof fn lemma_store_within_capacity(store: TemperatureStore)
    requires
        store.wf(),
    ensures
        store@.len() <= store.capacity(),
{
}

/// A history after one more reading arrived: the reading goes to the end,
/// and the oldest leaves where the history would outgrow its capacity.
pub open spec fn after_add(
    history: Seq<TemperatureReading>,
    capacity: nat,
    reading: TemperatureReading,
) -> Seq<TemperatureReading> {
    keep_latest(history.push(reading), capacity)
}

/// A history after a run of readings arrived one by one.
pub open spec fn after_all(
    history: Seq<TemperatureReading>,
    capacity: nat,
    readings: Seq<TemperatureReading>,
) -> Seq<TemperatureReading>
    decreases readings.len(),
{
    if readings.len() == 0 {
        history
    } else {
        after_all(after_add(history, capacity, readings[0]), capacity, readings.skip(1))
    }
}

/// The last `count` readings of a history, oldest first.
pub open spec fn recent(history: Seq<TemperatureReading>, count: nat) -> Seq<TemperatureReading> {
    keep_latest(history, count)
}

/// The temperatures of a history, in thousandths of a degree.
pub open spec fn values(history: Seq<TemperatureReading>) -> Seq<int> {
    history.map_values(|r: TemperatureReading| r.temperature.millicelsius as int)
}

/// The sum of a sequence of numbers.
pub open spec fn total(numbers: Seq<int>) -> int
    decreases numbers.len(),
{
    if numbers.len() == 0 {
        0
    } else {
        total(numbers.drop_last()) + numbers.last()
    }
}

/// The least of a non-empty sequence of numbers.
pub open spec fn least(numbers: Seq<int>) -> int
    recommends
        numbers.len() > 0,
    decreases numbers.len(),
{
    if numbers.len() <= 1 {
        numbers[0]
    } else {
        let rest = least(numbers.drop_last());
        if numbers.last() < rest {
            numbers.last()
        } else {
            rest
        }
    }
}

/// The greatest of a non-empty sequence of numbers.
pub open spec fn greatest(numbers: Seq<int>) -> int
    recommends
        numbers.len() > 0,
    decreases numbers.len(),
{
    if numbers.len() <= 1 {
        numbers[0]
    } else {
        let rest = greatest(numbers.drop_last());
        if numbers.last() > rest {
            numbers.last()
        } else {
            rest
        }
    }
}

/// The mean of a non-empty sequence of numbers, rounded down.
pub open spec fn mean(numbers: Seq<int>) -> int
    recommends
        numbers.len() > 0,
{
    total(numbers) / (numbers.len() as int)
}

/// The statistics of a history: none for an empty one, otherwise the least,
/// the greatest and the mean of its temperatures, and their number.
pub open spec fn stats_of(history: Seq<TemperatureReading>) -> Option<TemperatureStats> {
    if history.len() == 0 {
        None
    } else {
        Some(
            TemperatureStats {
                min: Temperature { millicelsius: least(values(history)) as i32 },
                max: Temperature { millicelsius: greatest(values(history)) as i32 },
                average: Temperature { millicelsius: mean(values(history)) as i32 },
                count: history.len() as usize,
            },
        )
    }
}

/// The statistics that stand for "no data": all zero.
pub open spec fn zero_stats() -> TemperatureStats {
    TemperatureStats {
        min: Temperature { millicelsius: 0 },
        max: Temperature { millicelsius: 0 },
        average: Temperature { millicelsius: 0 },
        count: 0,
    }
}

/// Every number of the sequence lies between `low` and `high`.
pub open spec fn within(numbers: Seq<int>, low: int, high: int) -> bool {
    forall|i: int| 0 <= i < numbers.len() ==> low <= #[trigger] numbers[i] <= high
}

/// The least of a non-empty sequence occurs in it and no member is smaller.
pub proof fn lemma_least_is_minimum(numbers: Seq<int>)
    requires
        numbers.len() > 0,
    ensures
        exists|i: int| 0 <= i < numbers.len() && numbers[i] == least(numbers),
        forall|i: int| 0 <= i < numbers.len() ==> least(numbers) <= #[trigger] numbers[i],
    decreases numbers.len(),
{
    if numbers.len() <= 1 {
        assert(numbers[0] == least(numbers));
    } else {
        let front = numbers.drop_last();
        lemma_least_is_minimum(front);
        let k = choose|i: int| 0 <= i < front.len() && front[i] == least(front);
        assert(front[k] == numbers[k]);
        if numbers.last() < least(front) {
            assert(numbers[numbers.len() - 1] == least(numbers));
        } else {
            assert(numbers[k] == least(numbers));
        }
        assert forall|i: int| 0 <= i < numbers.len() implies least(numbers) <= #[trigger] numbers[i] by {
            if i < front.len() {
                assert(front[i] == numbers[i]);
            }
        }
    }
}

/// The greatest of a non-empty sequence occurs in it and no member is larger.
pub proof fn lemma_greatest_is_maximum(numbers: Seq<int>)
    requires
        numbers.len() > 0,
    ensures
        exists|i: int| 0 <= i < numbers.len() && numbers[i] == greatest(numbers),
        forall|i: int| 0 <= i < numbers.len() ==> greatest(numbers) >= #[trigger] numbers[i],
    decreases numbers.len(),
{
    if numbers.len() <= 1 {
        assert(numbers[0] == greatest(numbers));
    } else {
        let front = numbers.drop_last();
        lemma_greatest_is_maximum(front);
        let k = choose|i: int| 0 <= i < front.len() && front[i] == greatest(front);
        assert(front[k] == numbers[k]);
        if numbers.last() > greatest(front) {
            assert(numbers[numbers.len() - 1] == greatest(numbers));
        } else {
            assert(numbers[k] == greatest(numbers));
        }
        assert forall|i: int| 0 <= i < numbers.len() implies greatest(numbers) >= #[trigger] numbers[i] by {
            if i < front.len() {
                assert(front[i] == numbers[i]);
            }
        }
    }
}

/// The sum of numbers that lie between `low` and `high` lies between
/// `low` and `high` times their count.
pub proof fn lemma_total_bounds(numbers: Seq<int>, low: int, high: int)
    requires
        within(numbers, low, high),
    ensures
        numbers.len() * low <= total(numbers) <= numbers.len() * high,
    decreases numbers.len(),
{
    if numbers.len() > 0 {
        let front = numbers.drop_last();
        assert forall|i: int| 0 <= i < front.len() implies low <= #[trigger] front[i] <= high by {
            assert(front[i] == numbers[i]);
        }
        lemma_total_bounds(front, low, high);
        assert(low <= numbers[numbers.len() - 1] <= high);
        assert(numbers.len() * low == front.len() * low + low) by (nonlinear_arith)
            requires
                numbers.len() == front.len() + 1,
        ;
        assert(numbers.len() * high == front.len() * high + high) by (nonlinear_arith)
            requires
                numbers.len() == front.len() + 1,
        ;
    } else {
        assert(numbers.len() * low == 0 && numbers.len() * high == 0) by (nonlinear_arith)
            requires
                numbers.len() == 0,
        ;
    }
}

/// The mean of a non-empty sequence lies between its least and its greatest
/// member.
pub proof fn lemma_mean_between(numbers: Seq<int>)
    requires
        numbers.len() > 0,
    ensures
        least(numbers) <= mean(numbers) <= greatest(numbers),
{
    lemma_least_is_minimum(numbers);
    lemma_greatest_is_maximum(numbers);
    let low = least(numbers);
    let high = greatest(numbers);
    lemma_total_bounds(numbers, low, high);
    let n = numbers.len() as int;
    let t = total(numbers);
    assert(low <= t / n <= high) by (nonlinear_arith)
        requires
            n > 0,
            n * low <= t <= n * high,
    ;
}

/// Adding readings one by one to a history that respects its capacity leaves
/// the last `capacity` of everything that was ever added, in arrival order.
pub proof fn lemma_store_keeps_latest(
    history: Seq<TemperatureReading>,
    capacity: nat,
    readings: Seq<TemperatureReading>,
)
    requires
        history.len() <= capacity,
    ensures
        after_all(history, capacity, readings) == keep_latest(history + readings, capacity),
        after_all(history, capacity, readings).len() <= capacity,
    decreases readings.len(),
{
    if readings.len() == 0 {
        assert(history + readings =~= history);
    } else {
        let next = after_add(history, capacity, readings[0]);
        let rest = readings.skip(1);
        lemma_store_keeps_latest(next, capacity, rest);
        let all = history + readings;
        assert(history.push(readings[0]) + rest =~= all);
        assert(keep_latest(next + rest, capacity) =~= keep_latest(all, capacity));
    }
}

/// A store of capacity `capacity` that starts empty and receives more
/// readings than it can hold ends with exactly `capacity` readings: the last
/// ones received, in the order in which they came.
pub proof fn lemma_overfilled_store(capacity: nat, readings: Seq<TemperatureReading>)
    requires
        readings.len() > capacity,
    ensures
        after_all(Seq::empty(), capacity, readings).len() == capacity,
        after_all(Seq::empty(), capacity, readings) == readings.skip(readings.len() - capacity),
{
    lemma_store_keeps_latest(Seq::empty(), capacity, readings);
    assert(Seq::<TemperatureReading>::empty() + readings =~= readings);
}

impl TemperatureReading {
    /// A reading of `temperature` taken now, by the system clock.
    pub fn new(temperature: Temperature) -> (reading: TemperatureReading)
        ensures
            reading.temperature == temperature,
    {
        let timestamp = unix_time_seconds();
        TemperatureReading::with_timestamp(temperature, timestamp)
    }

    /// A reading of `temperature` taken at second `timestamp`.
    pub fn with_timestamp(temperature: Temperature, timestamp: u64) -> (reading: TemperatureReading)
        ensures
            reading == (TemperatureReading { temperature, timestamp }),
    {
        TemperatureReading { temperature, timestamp }
    }
}

/// A bounded history of readings in arrival order.  It never holds more
/// readings than its capacity: a reading that arrives at a full store
/// pushes the oldest one out.
pub struct TemperatureStore {
    readings: Vec<TemperatureReading>,
    capacity: usize,
}

impl View for TemperatureStore {
    type V = Seq<TemperatureReading>;

    closed spec fn view(&self) -> Seq<TemperatureReading> {
        self.readings@
    }
}

/// Floor of `sum / count` for a positive `count`.
pub(crate) fn floor_div(sum: i128, count: i128) -> (quotient: i128)
    requires
        count > 0,
        sum > i128::MIN,
    ensures
        quotient == sum / count,
{
    if sum >= 0 {
        sum / count
    } else {
        let size: i128 = -sum;
        let whole: i128 = size / count;
        let rest: i128 = size % count;
        assert(sum / count == if rest == 0 { -whole } else { -whole - 1 }) by (nonlinear_arith)
            requires
                count > 0,
                size == -sum,
                size >= 0,
                whole == size / count,
                rest == size % count,
        ;
        if rest == 0 {
            -whole
        } else {
            -whole - 1
        }
    }
}

impl TemperatureStore {
    /// The store holds no more readings than its capacity.
    pub closed spec fn wf(&self) -> bool {
        self.readings@.len() <= self.capacity
    }

    /// The number of readings that the store holds at most.
    pub closed spec fn capacity(&self) -> nat {
        self.capacity as nat
    }

    /// An empty store that keeps the last `capacity` readings.
    pub fn new(capacity: usize) -> (store: TemperatureStore)
        ensures
            store.wf(),
            store@ == Seq::<TemperatureReading>::empty(),
            store.capacity() == capacity,
    {
        TemperatureStore { readings: Vec::new(), capacity }
    }

    /// Adds `reading` at the end.  A store that is already full first drops
    /// its oldest reading; a store of capacity zero stays empty.
    pub fn add_reading(&mut self, reading: TemperatureReading)
        requires
            old(self).wf(),
        ensures
            final(self).wf(),
            final(self)@ == after_add(old(self)@, old(self).capacity(), reading),
            final(self).capacity() == old(self).capacity(),
            final(self)@.len() <= final(self).capacity(),
    {
        if self.capacity == 0 {
            assert(self@ =~= after_add(old(self)@, old(self).capacity(), reading));
            return ;
        }
        if self.readings.len() >= self.capacity {
            self.readings.remove(0);
        }
        self.readings.push(reading);
        assert(self@ =~= after_add(old(self)@, old(self).capacity(), reading));
    }

    /// The reading added last, or none where the store is empty.
    pub fn get_latest(&self) -> (latest: Option<TemperatureReading>)
        ensures
            latest == (if self@.len() == 0 {
                None
            } else {
                Some(self@.last())
            }),
    {
        let n = self.readings.len();
        if n == 0 {
            None
        } else {
            Some(self.readings[n - 1])
        }
    }

    /// A copy of every reading held, oldest first.
    pub fn get_all(&self) -> (all: Vec<TemperatureReading>)
        ensures
            all@ == self@,
    {
        self.get_recent_readings(self.readings.len())
    }

    /// The statistics of the readings held, or none where the store is empty.
    pub fn calculate_stats(&self) -> (stats: Option<TemperatureStats>)
        ensures
            stats == stats_of(self@),
    {
        let n = self.readings.len();
        if n == 0 {
            return None;
        }
        let ghost held = values(self@);
        let mut low: i32 = self.readings[0].temperature.millicelsius;
        let mut high: i32 = low;
        let mut sum: i128 = 0;
        let mut i: usize = 0;
        assert(held.take(0) =~= Seq::<int>::empty());
        while i < n
            invariant
                n == self.readings.len(),
                n > 0,
                held == values(self@),
                i <= n,
                sum == total(held.take(i as int)),
                -(i as int) * 0x8000_0000 <= sum <= (i as int) * 0x8000_0000,
                i == 0 ==> low == held[0] && high == held[0],
                i > 0 ==> low == least(held.take(i as int)) && high == greatest(held.take(i as int)),
            decreases n - i,
        {
            let value: i32 = self.readings[i].temperature.millicelsius;
            proof {
                let before = held.take(i as int);
                let now = held.take(i as int + 1);
                assert(now.drop_last() =~= before);
                assert(now.last() == value);
                assert(held[i as int] == value);
            }
            if i == 0 {
                low = value;
                high = value;
            } else {
                if value < low {
                    low = value;
                }
                if value > high {
                    high = value;
                }
            }
            sum = sum + value as i128;
            i = i + 1;
        }
        assert(held.take(n as int) =~= held);
        proof {
            lemma_mean_between(held);
            lemma_least_is_minimum(held);
            lemma_greatest_is_maximum(held);
        }
        let average: i128 = floor_div(sum, n as i128);
        Some(
            TemperatureStats {
                min: Temperature { millicelsius: low },
                max: Temperature { millicelsius: high },
                average: Temperature { millicelsius: average as i32 },
                count: n,
            },
        )
    }

    /// The statistics of the readings held, or all zeros where the store is
    /// empty.
    pub fn get_stats(&self) -> (stats: TemperatureStats)
        ensures
            stats == (match stats_of(self@) {
                Some(found) => found,
                None => zero_stats(),
            }),
    {
        match self.calculate_stats() {
            Some(found) => found,
            None => TemperatureStats {
                min: Temperature { millicelsius: 0 },
                max: Temperature { millicelsius: 0 },
                average: Temperature { millicelsius: 0 },
                count: 0,
            },
        }
    }

    /// The number of readings held.
    pub fn reading_count(&self) -> (count: usize)
        ensures
            count == self@.len(),
    {
        self.len()
    }

    /// The last `count` readings, oldest first; all of them where the store
    /// holds fewer.
    pub fn get_recent_readings(&self, count: usize) -> (found: Vec<TemperatureReading>)
        ensures
            found@ == recent(self@, count as nat),
    {
        let n = self.readings.len();
        let start: usize = if n > count { n - count } else { 0 };
        let mut found: Vec<TemperatureReading> = Vec::new();
        let mut i: usize = start;
        while i < n
            invariant
                n == self.readings.len(),
                start <= i <= n,
                found@ == self.readings@.subrange(start as int, i as int),
            decreases n - i,
        {
            found.push(self.readings[i]);
            assert(found@ =~= self.readings@.subrange(start as int, i as int + 1));
            i = i + 1;
        }
        assert(found@ =~= recent(self@, count as nat));
        found
    }

    /// Removes every reading.  The capacity stays.
    pub fn clear(&mut self)
        ensures
            final(self).wf(),
            final(self)@ == Seq::<TemperatureReading>::empty(),
            final(self).capacity() == old(self).capacity(),
    {
        self.readings.clear();
    }

    /// The number of readings held.
    pub fn len(&self) -> (count: usize)
        ensures
            count == self@.len(),
    {
        self.readings.len()
    }

    /// Whether the store holds no reading.
    pub fn is_empty(&self) -> (empty: bool)
        ensures
            empty == (self@.len() == 0),
    {
        self.len() == 0
    }
}

} // verus!
