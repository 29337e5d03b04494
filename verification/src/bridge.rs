//! The fan-out bridge: a mirrored request as one record of a log.
//!
//! The proxy mirrors the request as the filter transformed it, and the bridge produces
//! it to a topic. The client of the log is whatever the deployment plugs in; the bridge
//! only says what is produced.
use vstd::prelude::*;
use vstd::slice::slice_to_vec;
use crate::text;

verus! {

/// The record that a mirrored request becomes.
#[derive(Debug, Clone, PartialEq, Eq)]
pub struct FanoutRecord {
    /// The key: the physical request path, so that the records of one document keep
    /// their order.
    pub key: Vec<u8>,
    /// The payload: the transformed request body.
    pub payload: Vec<u8>,
}

/// The fan-out bridge over a producer.
#[derive(Debug, Clone)]
pub struct Bridge<P> {
    producer: P,
    topic: String,
}

impl<P> Bridge<P> {
    /// The producer the bridge writes through.
    pub closed spec fn carried(&self) -> P {
        self.producer
    }

    /// The topic the bridge produces to.
    pub closed spec fn topic(&self) -> Seq<char> {
        self.topic@
    }

    /// A bridge that produces mirrored requests to `topic`.
    #[must_use]
    pub fn new(producer: P, topic: &str) -> (r: Self)
        ensures
            r.carried() == producer,
            r.topic() == topic@,
    {
        Bridge { producer, topic: topic.to_owned() }
    }

    /// The record that a mirrored request maps to.
    #[must_use]
    pub fn record(path: &str, body: &[u8]) -> (r: FanoutRecord)
        ensures
            r.key@ == vstd::utf8::encode_utf8(path@),
            r.payload@ == body@,
    {
        FanoutRecord { key: text::bytes_of(path), payload: slice_to_vec(body) }
    }

    /// The producer the bridge writes through.
    #[must_use]
    pub fn producer(&self) -> (r: &P)
        ensures
            *r == self.carried(),
    {
        &self.producer
    }

    /// The topic the bridge produces to.
    #[must_use]
    pub fn topic_name(&self) -> (r: &str)
        ensures
            r@ == self.topic(),
    {
        self.topic.as_str()
    }

    /// Produces one mirrored request as a record: `produce` is called once, with the
    /// producer, the topic, the record's key and its payload, and what it returns is
    /// returned.
    ///
    /// # Errors
    /// That of `produce`, where the record could not be enqueued.
    pub fn forward<E, F: FnOnce(&P, &str, &[u8], &[u8]) -> Result<(), E>>(
        &self,
        path: &str,
        body: &[u8],
        produce: F,
    ) -> (r: Result<(), E>)
        requires
            forall|p: &P, topic: &str, key: &[u8], payload: &[u8]|
                *p == self.carried() && topic@ == self.topic() && key@ == vstd::utf8::encode_utf8(
                    path@,
                ) && payload@ == body@ ==> #[trigger] call_requires(
                    produce,
                    (p, topic, key, payload),
                ),
        ensures
            exists|p: &P, topic: &str, key: &[u8], payload: &[u8]|
                {
                    &&& *p == self.carried()
                    &&& topic@ == self.topic()
                    &&& key@ == vstd::utf8::encode_utf8(path@)
                    &&& payload@ == body@
                    &&& #[trigger] call_ensures(produce, (p, topic, key, payload), r)
                },
    {
        let record = Bridge::<P>::record(path, body);
        let p = &self.producer;
        let topic = self.topic.as_str();
        let key = record.key.as_slice();
        let payload = record.payload.as_slice();
        produce(p, topic, key, payload)
    }
}

/// Records are keyed by document: two requests for one path have one key, and two
/// requests for different paths have different keys.
pub proof fn records_are_keyed_by_path(one: Seq<char>, other: Seq<char>)
    ensures
        vstd::utf8::encode_utf8(one) == vstd::utf8::encode_utf8(other) <==> one == other,
{
    vstd::utf8::encode_utf8_decode_utf8(one);
    vstd::utf8::encode_utf8_decode_utf8(other);
}

} // verus!
