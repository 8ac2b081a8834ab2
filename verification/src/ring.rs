//! The sample ring buffer between the audio callback and the pitch worker, with a record
//! of what each end has passed on. Only this module writes the records.
use vstd::prelude::*;
use ringbuf::traits::{Consumer, Producer, Split};

verus! {

/// The producing end of a `ringbuf` heap ring buffer.
#[verifier::external_body]
#[verifier::reject_recursive_types(T)]
struct ProducerEnd<T> {
    inner: ringbuf::HeapProd<T>,
}

/// The consuming end of a `ringbuf` heap ring buffer.
#[verifier::external_body]
#[verifier::reject_recursive_types(T)]
struct ConsumerEnd<T> {
    inner: ringbuf::HeapCons<T>,
}

/// The end of the sample ring buffer that the audio callback fills, with a record of
/// every sample offered to it and whether the buffer took it.
#[verifier::reject_recursive_types(T)]
pub struct SampleFeed<T> {
    end: ProducerEnd<T>,
    offers: Ghost<Seq<(T, bool)>>,
}

/// The end of the sample ring buffer that the pitch worker drains, with a record of every
/// sample it handed out and whether the last attempt found it empty.
#[verifier::reject_recursive_types(T)]
pub struct SampleQueue<T> {
    end: ConsumerEnd<T>,
    taken_out: Ghost<Seq<T>>,
    found_empty: Ghost<bool>,
}

impl<T> SampleFeed<T> {
    /// Every sample offered so far, with whether the buffer took it.
    pub closed spec fn offers(&self) -> Seq<(T, bool)> {
        self.offers@
    }
}

impl<T> SampleQueue<T> {
    /// Every sample handed out so far, oldest first.
    pub closed spec fn taken_out(&self) -> Seq<T> {
        self.taken_out@
    }

    /// Whether the last attempt to take a sample found the buffer empty.
    pub closed spec fn found_empty(&self) -> bool {
        self.found_empty@
    }
}

/// A ring buffer of `capacity` samples, split into its two ends.
///
/// Calls `ringbuf`'s `HeapRb::new` and `Split::split`; `new` panics on a zero capacity,
/// which `requires` rules out. Nothing is claimed of the ends: their contents change with
/// the two threads that use them.
#[verifier::external_body]
fn split_ring<T>(capacity: usize) -> (ProducerEnd<T>, ConsumerEnd<T>)
    requires
        capacity > 0,
{
    let (producer, consumer) = ringbuf::HeapRb::<T>::new(capacity).split();
    (ProducerEnd { inner: producer }, ConsumerEnd { inner: consumer })
}

/// A ring buffer of `capacity` samples, split into the end the audio callback fills and
/// the end the pitch worker drains; nothing has been offered or handed out yet.
pub fn sample_ring<T>(capacity: usize) -> (r: (SampleFeed<T>, SampleQueue<T>))
    requires
        capacity > 0,
    ensures
        r.0.offers() == Seq::<(T, bool)>::empty(),
        r.1.taken_out() == Seq::<T>::empty(),
        !r.1.found_empty(),
{
    let (producer, consumer) = split_ring(capacity);
    (
        SampleFeed { end: producer, offers: Ghost(Seq::empty()) },
        SampleQueue { end: consumer, taken_out: Ghost(Seq::empty()), found_empty: Ghost(false) },
    )
}

/// Offers one sample to the ring buffer; `true` when it was taken.
///
/// Calls `ringbuf`'s `Producer::try_push`, which refuses the sample when the buffer is
/// full. Whether it is full depends on the consuming thread, so nothing is claimed.
///
/// The contract adds the offer and its outcome to the feed's record of offers; the record
/// is ghost state of this library that exists for stating that, and nothing else of the
/// buffer is claimed.
#[verifier::external_body]
pub(crate) fn try_push_sample<T>(feed: &mut SampleFeed<T>, sample: T) -> (taken: bool)
    ensures
        final(feed).offers() == old(feed).offers().push((sample, taken)),
{
    feed.end.inner.try_push(sample).is_ok()
}

/// Takes the oldest queued sample, if any.
///
/// Calls `ringbuf`'s `Consumer::try_pop`. The producer runs on the audio thread, so what
/// comes back depends on timing and nothing is claimed of it.
///
/// The contract adds what came back to the queue's record of samples handed out, and
/// records whether the queue was found empty; the record is ghost state of this library
/// that exists for stating that, and nothing else of the buffer is claimed.
#[verifier::external_body]
pub(crate) fn try_pop_sample<T>(queue: &mut SampleQueue<T>) -> (r: Option<T>)
    ensures
        final(queue).taken_out() == match r {
            Some(s) => old(queue).taken_out().push(s),
            None => old(queue).taken_out(),
        },
        final(queue).found_empty() == (r is None),
{
    queue.end.inner.try_pop()
}

} // verus!
