//! The monitoring stream between the audio callback and its observer.
//!
//! The callback is the only producer and must never wait: it thins its
//! samples out with a [`Decimator`], whose [`Decimator::offer`] hands the due
//! ones to a bounded lock-free queue through [`try_push`]. A sample that
//! finds the queue full comes back rather than block. The observer is the
//! only consumer: a [`ConsumerDump`] empties the queue into a history of
//! bounded length, from which the oldest samples are dropped first.
//!
//! The queue itself is `ringbuf`'s. Both of its ends may be at work at the
//! same moment, so what one end finds in it is not determined by what that
//! end did before; the contracts here state what holds whatever the other
//! end does.

use ringbuf::Consumer;
use ringbuf::Producer;
use std::sync::Arc;
use std::sync::Mutex;
use std::sync::MutexGuard;
use std::sync::TryLockError;
use vstd::math::min;
use vstd::prelude::*;

verus! {

/// Number of samples that the monitoring queue is made for.
pub const TELEMETRY_CAPACITY: usize = 3000;

/// The sample rate divided by this is the number of audio samples from one
/// monitoring sample to the next.
pub const DECIMATION_DIVISOR: u32 = 512;

/// `ringbuf::Producer`, the writing end of the queue, carried as an opaque
/// value.
#[verifier::external_type_specification]
#[verifier::external_body]
#[verifier::reject_recursive_types(T)]
pub struct ExProducer<T>(Producer<T>);

/// `ringbuf::Consumer`, the reading end of the queue, carried as an opaque
/// value.
#[verifier::external_type_specification]
#[verifier::external_body]
#[verifier::reject_recursive_types(T)]
pub struct ExConsumer<T>(Consumer<T>);

/// `std::sync::Mutex`, carried as an opaque value.
#[verifier::external_type_specification]
#[verifier::external_body]
#[verifier::reject_recursive_types(T)]
pub struct ExMutex<T: ?Sized>(Mutex<T>);

/// `std::sync::MutexGuard`, carried as an opaque value.
#[verifier::external_type_specification]
#[verifier::external_body]
#[verifier::reject_recursive_types(T)]
pub struct ExMutexGuard<'a, T: ?Sized + 'a>(MutexGuard<'a, T>);

/// `ringbuf::Producer::is_full`. Nothing is claimed of the answer: the
/// consumer may take a sample out at any moment.
pub assume_specification<T>[ Producer::<T>::is_full ](producer: &Producer<T>) -> (full: bool)
;

/// `ringbuf::Producer::push`. Claimed: an element that is refused comes back
/// as it was given. Whether it is refused depends on the consumer too, and
/// is left open.
pub assume_specification<T>[ Producer::<T>::push ](producer: &mut Producer<T>, elem: T) -> (outcome:
    Result<(), T>)
    ensures
        outcome matches Err(back) ==> back == elem,
;

/// `std::sync::Mutex::try_lock` on the shared reading end. Never waits:
/// returns the guard where the lock is free, the guard of a poisoned lock as
/// it is, and `None` where the lock is held. Nothing is claimed of which of
/// these happens.
#[verifier::external_body]
fn try_lock_consumer<'a, T>(shared: &'a Arc<Mutex<Consumer<T>>>) -> (guard: Option<
    MutexGuard<'a, Consumer<T>>,
>) {
    match shared.try_lock() {
        Ok(guard) => Some(guard),
        Err(TryLockError::Poisoned(poisoned)) => Some(poisoned.into_inner()),
        Err(TryLockError::WouldBlock) => None,
    }
}

/// `ringbuf::Consumer::len` through the guard. Nothing is claimed of the
/// number: the producer may add a sample at any moment.
#[verifier::external_body]
fn queued<'a, T>(guard: &MutexGuard<'a, Consumer<T>>) -> (len: usize) {
    guard.len()
}

/// `ringbuf::Consumer::pop` through the guard. Nothing is claimed of the
/// result: whether a sample is there depends on the producer.
#[verifier::external_body]
fn pop_queued<'a, T>(guard: &mut MutexGuard<'a, Consumer<T>>) -> (popped: Option<T>) {
    guard.pop()
}

/// Offers `sample` to the queue without waiting. A sample that finds the
/// queue full is handed back unchanged, for the caller to drop.
pub fn try_push<T>(producer: &mut Producer<T>, sample: T) -> (outcome: Result<(), T>)
    ensures
        outcome matches Err(back) ==> back == sample,
{
    // Whether the queue is full is for the queue to say, and the consumer
    // may make room at any moment; `route` says what follows from its answer.
    match route(producer.is_full(), sample) {
        Ok(sample) => producer.push(sample),
        Err(back) => Err(back),
    }
}

/// Decides what becomes of `sample` once the queue has said whether it is
/// `full`: `Err` holds a sample that goes back to the caller, `Ok` one that
/// goes on to the queue. Either way it is `sample` itself.
pub fn route<T>(full: bool, sample: T) -> (routed: Result<T, T>)
    ensures
        full ==> routed == Err::<T, T>(sample),
        !full ==> routed == Ok::<T, T>(sample),
{
    if full {
        Err(sample)
    } else {
        Ok(sample)
    }
}

/// Whether a counter that stands at `counter` makes a monitoring sample due.
pub open spec fn is_due(counter: int, period: int) -> bool {
    counter >= period
}

/// The counter after one audio sample: it starts over at one where a
/// monitoring sample was due, and goes up by one otherwise.
pub open spec fn advance(counter: int, period: int) -> int {
    if is_due(counter, period) {
        1
    } else {
        counter + 1
    }
}

/// The counter after `ticks` audio samples at one and the same period.
pub open spec fn advance_by(counter: int, period: int, ticks: nat) -> int
    decreases ticks,
{
    if ticks == 0 {
        counter
    } else {
        advance(advance_by(counter, period, (ticks - 1) as nat), period)
    }
}

/// The number of audio samples from one monitoring sample to the next at
/// `sample_rate` hertz.
pub open spec fn period_at(sample_rate: int) -> int {
    sample_rate / (DECIMATION_DIVISOR as int)
}

/// What became of a sample that the audio callback had for the monitoring
/// stream.
pub enum Offer<T> {
    /// No monitoring sample was due: the queue was left alone.
    Skipped(T),
    /// A monitoring sample was due and the queue took it.
    Queued,
    /// A monitoring sample was due and the queue had no room for it.
    Dropped(T),
}

/// Counts audio samples and says for which of them a monitoring sample is
/// due, so that the stream stays far below the audio rate.
pub struct Decimator {
    counter: u32,
}

impl View for Decimator {
    type V = int;

    /// The number of audio samples counted since the last monitoring sample.
    closed spec fn view(&self) -> int {
        self.counter as int
    }
}

impl Decimator {
    /// A decimator that has counted nothing yet.
    pub fn new() -> (decimator: Self)
        ensures
            decimator@ == 0,
    {
        Decimator { counter: 0 }
    }

    /// The period, in audio samples, of the monitoring stream at
    /// `sample_rate` hertz.
    pub fn period_for(sample_rate: u32) -> (period: u32)
        ensures
            period == period_at(sample_rate as int),
    {
        sample_rate / DECIMATION_DIVISOR
    }

    /// Counts one audio sample. The result says whether a monitoring sample
    /// is due for it.
    pub fn tick(&mut self, period: u32) -> (due: bool)
        ensures
            due == is_due(old(self)@, period as int),
            final(self)@ == advance(old(self)@, period as int),
    {
        let due: bool = self.counter >= period;
        if due {
            self.counter = 0;
        }
        self.counter = self.counter + 1;
        due
    }

    /// Counts one audio sample and, where a monitoring sample is due for it,
    /// offers `sample` to the queue without waiting. A sample that does not
    /// reach the queue is handed back unchanged, for the caller to drop.
    ///
    /// The queue is touched for due samples only; [`lemma_cadence`] says how
    /// far apart those lie.
    pub fn offer<T>(&mut self, producer: &mut Producer<T>, period: u32, sample: T) -> (outcome:
        Offer<T>)
        ensures
            final(self)@ == advance(old(self)@, period as int),
            !is_due(old(self)@, period as int) ==> outcome == Offer::Skipped(sample),
            is_due(old(self)@, period as int) ==> outcome is Queued || outcome == Offer::Dropped(
                sample,
            ),
    {
        if self.tick(period) {
            match try_push(producer, sample) {
                Ok(()) => Offer::Queued,
                Err(back) => Offer::Dropped(back),
            }
        } else {
            Offer::Skipped(sample)
        }
    }
}

/// In its steady state the decimator makes one sample in every `period` due:
/// `ticks` audio samples after a due one the counter stands at `1 + ticks`,
/// which makes the next sample due after `period - 1` further ones and none
/// before.
pub proof fn lemma_cadence(period: int, ticks: nat)
    requires
        1 <= period,
        ticks < period,
    ensures
        advance_by(1, period, ticks) == 1 + ticks,
        is_due(advance_by(1, period, ticks), period) <==> ticks == period - 1,
    decreases ticks,
{
    if ticks > 0 {
        lemma_cadence(period, (ticks - 1) as nat);
    }
}

/// The counter's steady state is a cycle of `period` audio samples.
pub proof fn lemma_cycle(period: int)
    requires
        1 <= period,
    ensures
        advance_by(1, period, period as nat) == 1,
{
    lemma_cadence(period, (period - 1) as nat);
}

/// A new decimator makes no sample due before it has counted `period` of
/// them, and the one after those due.
pub proof fn lemma_first_due(period: int, ticks: nat)
    requires
        0 <= period,
        ticks <= period,
    ensures
        advance_by(0, period, ticks) == ticks,
        is_due(advance_by(0, period, ticks), period) <==> ticks == period,
    decreases ticks,
{
    if ticks > 0 {
        lemma_first_due(period, (ticks - 1) as nat);
    }
}

/// The `max` youngest of `items`: what is left when a history of at most
/// `max` entries drops its oldest ones.
pub open spec fn keep_last<T>(items: Seq<T>, max: int) -> Seq<T> {
    if items.len() > max {
        items.skip(items.len() - max)
    } else {
        items
    }
}

/// The observer's history of monitoring samples, fed from the shared reading
/// end of the queue.
///
/// Its view is `data`, oldest sample first.
#[verifier::reject_recursive_types(T)]
pub struct ConsumerDump<T> {
    /// The samples kept, oldest first.
    pub data: Vec<T>,
    consumer: Arc<Mutex<Consumer<T>>>,
    max_size: usize,
}

impl<T> View for ConsumerDump<T> {
    type V = Seq<T>;

    closed spec fn view(&self) -> Seq<T> {
        self.data@
    }
}

impl<T> ConsumerDump<T> {
    /// The greatest number of samples that are kept.
    pub closed spec fn max_size(&self) -> usize {
        self.max_size
    }

    /// An empty history of at most `max_size` samples, fed from `consumer`.
    pub fn new(consumer: Arc<Mutex<Consumer<T>>>, max_size: usize) -> (dump: Self)
        ensures
            dump@ == Seq::<T>::empty(),
            dump.max_size() == max_size,
    {
        ConsumerDump { data: Vec::new(), consumer, max_size }
    }

    /// Puts what one read of the queue gave at the end of `data`. The result
    /// says whether there was a sample; `false` means that the queue was
    /// found empty.
    pub fn absorb(data: &mut Vec<T>, popped: Option<T>) -> (stored: bool)
        ensures
            stored == popped.is_some(),
            popped matches Some(sample) ==> final(data)@ == old(data)@.push(sample),
            popped.is_none() ==> final(data)@ == old(data)@,
    {
        match popped {
            Some(sample) => {
                data.push(sample);
                true
            },
            None => false,
        }
    }

    /// Moves what the queue holds to the end of the history, in the order in
    /// which it was queued, then drops the oldest samples beyond `max_size`.
    /// Where the reading end is in use elsewhere at that moment, nothing is
    /// moved and the queue keeps its samples for the next call.
    ///
    /// How many samples arrive is the producer's doing; whatever arrives, the
    /// history afterwards is the youngest `max_size` of the old history
    /// followed by the arrivals.
    pub fn consume(&mut self)
        ensures
            final(self).max_size() == old(self).max_size(),
            exists|arrived: Seq<T>|
                final(self)@ == keep_last(
                    #[trigger] (old(self)@ + arrived),
                    old(self).max_size() as int,
                ),
            final(self)@.len() <= final(self).max_size(),
    {
        let ghost mut arrived: Seq<T> = Seq::empty();
        if let Some(mut guard) = try_lock_consumer(&self.consumer) {
            let expected: usize = queued(&guard);
            let mut taken: usize = 0;
            while taken < expected
                invariant
                    self.max_size == old(self).max_size,
                    self.data@ == old(self).data@ + arrived,
                decreases expected - taken,
            {
                let popped = pop_queued(&mut guard);
                if !Self::absorb(&mut self.data, popped) {
                    break;
                }
                proof {
                    arrived = arrived.push(popped->Some_0);
                }
                taken = taken + 1;
            }
        }
        self.trim_data();
        assert(self@ == keep_last(old(self)@ + arrived, old(self).max_size() as int));
    }

    /// Changes the greatest number of samples kept, and drops the oldest
    /// samples beyond it.
    pub fn set_max_size(&mut self, max_size: usize)
        ensures
            final(self).max_size() == max_size,
            final(self)@ == keep_last(old(self)@, max_size as int),
            final(self)@.len() <= max_size,
    {
        self.max_size = max_size;
        self.trim_data();
    }

    /// Drops the oldest samples beyond `max_size`.
    pub fn trim_data(&mut self)
        ensures
            final(self).max_size() == old(self).max_size(),
            final(self)@ == keep_last(old(self)@, old(self).max_size() as int),
            final(self)@.len() <= final(self).max_size(),
    {
        let data_len: usize = self.data.len();
        if data_len > self.max_size {
            let kept = self.data.split_off(data_len - self.max_size);
            self.data = kept;
        }
    }
}

/// A trimmed history holds at most `max` samples, and they are the youngest
/// ones in their old order.
pub proof fn lemma_keep_last_is_tail<T>(items: Seq<T>, max: int)
    requires
        0 <= max,
    ensures
        keep_last(items, max).len() == min(items.len() as int, max),
        forall|i: int|
            0 <= i < keep_last(items, max).len() ==> keep_last(items, max)[i] == items[items.len()
                - keep_last(items, max).len() + i],
{
}

/// Trimming a trimmed history changes nothing.
pub proof fn lemma_keep_last_twice<T>(items: Seq<T>, max: int)
    requires
        0 <= max,
    ensures
        keep_last(keep_last(items, max), max) == keep_last(items, max),
{
}

/// Trimming after every read of the queue loses nothing that one trim at the
/// end would have kept: the history is always the youngest `max` of all the
/// samples that ever arrived.
pub proof fn lemma_keep_last_of_appended<T>(items: Seq<T>, arrived: Seq<T>, max: int)
    requires
        0 <= max,
    ensures
        keep_last(keep_last(items, max) + arrived, max) == keep_last(items + arrived, max),
{
}

} // verus!
