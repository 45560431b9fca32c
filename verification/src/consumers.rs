use vstd::prelude::*;
use crate::errors::OrderServiceError;

verus! {

/// Narrow capability over one topic subscription on the event bus: fetch the
/// next batch of raw payloads, and commit the consumed offsets. An error is
/// the transport's cause, as text.
///
/// Implementations live outside the verified core — a real connection in the
/// surrounding binary, doubles in tests — so the methods carry no contracts;
/// everything the library guarantees is proved in the [`Subscription`]
/// handle that wraps an implementation.
pub trait KafkaConsumer: Sized {
    /// Fetches the next batch of available message payloads, in receipt
    /// order; an empty batch means nothing is pending.
    fn poll(&mut self) -> Result<Vec<Vec<u8>>, String>;

    /// Commits the offsets of every batch polled so far.
    fn commit(&mut self) -> Result<(), String>;
}

/// The payload bytes of a batch, in receipt order.
pub open spec fn batch_payloads(batch: Seq<Vec<u8>>) -> Seq<Seq<u8>> {
    Seq::new(batch.len(), |i: int| batch[i]@)
}

/// A verified handle on a topic subscription, keeping two ghost histories.
///
/// `polled()` holds the batches the broker handed over through this handle,
/// oldest first, and `committed()` counts the offset commits it recorded:
/// polling appends exactly the fetched batch and commits nothing, a
/// successful commit records exactly one more, and every transport failure
/// surfaces as `EventBrokerError` carrying the cause.
pub struct Subscription<K: KafkaConsumer> {
    pub inner: K,
    commit_count: Ghost<nat>,
    poll_log: Ghost<Seq<Seq<Seq<u8>>>>,
}

impl<K: KafkaConsumer> Subscription<K> {
    /// How many offset commits the broker has recorded through this handle.
    pub closed spec fn committed(&self) -> nat {
        self.commit_count@
    }

    /// The batches the broker handed over through this handle, oldest
    /// first.
    pub closed spec fn polled(&self) -> Seq<Seq<Seq<u8>>> {
        self.poll_log@
    }

    /// Wraps a consumer; nothing has gone through the handle yet.
    pub fn new(inner: K) -> (r: Subscription<K>)
        ensures
            r.committed() == 0,
            r.polled() == Seq::<Seq<Seq<u8>>>::empty(),
    {
        Subscription { inner, commit_count: Ghost(0), poll_log: Ghost(Seq::empty()) }
    }

    /// Fetches the next batch of available message payloads; on success the
    /// polled history grows by exactly that batch.
    pub fn poll(&mut self) -> (r: Result<Vec<Vec<u8>>, OrderServiceError>)
        ensures
            final(self).committed() == old(self).committed(),
            r matches Ok(batch) ==> final(self).polled() == old(self).polled().push(
                batch_payloads(batch@),
            ),
            r is Err ==> final(self).polled() == old(self).polled(),
            r matches Err(e) ==> e matches OrderServiceError::EventBrokerError(_),
    {
        match self.inner.poll() {
            Ok(batch) => {
                self.poll_log = Ghost(self.poll_log@.push(batch_payloads(batch@)));
                Ok(batch)
            },
            Err(cause) => Err(OrderServiceError::EventBrokerError(cause)),
        }
    }

    /// Commits the offsets of every batch polled so far.
    pub fn commit(&mut self) -> (r: Result<(), OrderServiceError>)
        ensures
            final(self).polled() == old(self).polled(),
            r is Ok ==> final(self).committed() == old(self).committed() + 1,
            r is Err ==> final(self).committed() == old(self).committed(),
            r matches Err(e) ==> e matches OrderServiceError::EventBrokerError(_),
    {
        match self.inner.commit() {
            Ok(_) => {
                self.commit_count = Ghost(self.commit_count@ + 1);
                Ok(())
            },
            Err(cause) => Err(OrderServiceError::EventBrokerError(cause)),
        }
    }
}

/// Drains one batch from the topic: polls, hands every payload of the batch
/// to the handler in receipt order, then commits the batch's offsets
/// unconditionally.
///
/// On success the result pairs the polled batch — exactly the one appended
/// to the subscription's polled history — with one handler outcome per
/// payload, in receipt order, each obeying the handler's own contract; the
/// batch's offsets were then committed. A handler failure is deliberately
/// swallowed: it neither stops the batch nor skips the commit, so a failed
/// message is not redelivered — handler work is at-most-once. Only a
/// transport failure (poll or commit) surfaces, and then the commit that
/// failed was not recorded. The caller is expected to run this in a loop,
/// forever, and treat an error as fatal to the subscription.
pub fn consume_batch<K, F>(consumer: &mut Subscription<K>, on_consumed: &F) -> (r: Result<
    (Vec<Vec<u8>>, Vec<Result<(), OrderServiceError>>),
    OrderServiceError,
>) where K: KafkaConsumer, F: Fn(&Vec<u8>) -> Result<(), OrderServiceError>
    requires
        forall|m: &Vec<u8>| call_requires(*on_consumed, (m,)),
    ensures
        r matches Ok(p) ==> ({
            &&& final(consumer).committed() == old(consumer).committed() + 1
            &&& final(consumer).polled() == old(consumer).polled().push(batch_payloads(p.0@))
            &&& p.1@.len() == p.0@.len()
            &&& forall|i: int|
                0 <= i < p.0@.len() ==> call_ensures(*on_consumed, (&p.0@[i],), #[trigger] p.1@[i])
        }),
        r is Err ==> final(consumer).committed() == old(consumer).committed(),
        r matches Err(e) ==> e matches OrderServiceError::EventBrokerError(_),
{
    let batch = match consumer.poll() {
        Ok(b) => b,
        Err(e) => {
            return Err(e);
        },
    };
    let mut outcomes: Vec<Result<(), OrderServiceError>> = Vec::new();
    let mut i: usize = 0;
    while i < batch.len()
        invariant
            forall|m: &Vec<u8>| call_requires(*on_consumed, (m,)),
            i <= batch@.len(),
            outcomes@.len() == i,
            forall|j: int|
                0 <= j < i ==> call_ensures(*on_consumed, (&batch@[j],), #[trigger] outcomes@[j]),
        decreases batch@.len() - i,
    {
        let res = on_consumed(&batch[i]);
        outcomes.push(res);
        i = i + 1;
    }
    match consumer.commit() {
        Ok(_) => Ok((batch, outcomes)),
        Err(e) => Err(e),
    }
}

} // verus!
