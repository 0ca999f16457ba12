//! Subscriptions: a server pushes an unbounded sequence of JSON items on a
//! topic, and the client reads them in order. A malformed item becomes an
//! error item and the sequence goes on. The queue has no bound: nothing
//! tells the producer to slow down.
use vstd::prelude::*;
use crate::error::Error;

verus! {

/// The integer that a JSON text holds, if it holds one.
pub uninterp spec fn json_i32_of(s: Seq<char>) -> Option<i32>;

/// Relies on `serde_json::from_str`: reads an integer from JSON text.
#[verifier::external_body]
fn parse_json_i32(s: &str) -> (r: Option<i32>)
    ensures
        r == json_i32_of(s@),
{
    serde_json::from_str::<i32>(s).ok()
}

/// The item that a pushed message gives; a message without data, or one
/// that is not an integer, gives `Deserialization`.
pub open spec fn spec_message(data: Option<Seq<char>>) -> Result<i32, Error> {
    match data {
        None => Err(Error::Deserialization),
        Some(s) => match json_i32_of(s) {
            Some(v) => Ok(v),
            None => Err(Error::Deserialization),
        },
    }
}

/// Decodes the data of one pushed message.
pub fn deserialize_message(data: Option<&str>) -> (r: Result<i32, Error>)
    ensures
        r == spec_message(
            match data {
                Some(s) => Some(s@),
                None => None,
            },
        ),
{
    match data {
        None => Err(Error::Deserialization),
        Some(s) => match parse_json_i32(s) {
            Some(v) => Ok(v),
            None => Err(Error::Deserialization),
        },
    }
}

/// The items of a subscription, received and not yet read.
pub struct SubscriptionMessage {
    topic: Vec<u8>,
    items: Vec<Result<i32, Error>>,
    head: usize,
}

impl View for SubscriptionMessage {
    type V = Seq<Result<i32, Error>>;

    closed spec fn view(&self) -> Seq<Result<i32, Error>> {
        self.items@.subrange(self.head as int, self.items@.len() as int)
    }
}

impl SubscriptionMessage {
    pub closed spec fn wf(&self) -> bool {
        self.head <= self.items@.len()
    }

    pub closed spec fn spec_topic(&self) -> Seq<u8> {
        self.topic@
    }

    /// A subscription to `topic` with nothing received yet.
    pub fn new(topic: Vec<u8>) -> (r: Self)
        ensures
            r.wf(),
            r@ == Seq::<Result<i32, Error>>::empty(),
            r.spec_topic() == topic@,
    {
        let r = SubscriptionMessage { topic, items: Vec::new(), head: 0 };
        assert(r@ =~= Seq::<Result<i32, Error>>::empty());
        r
    }

    /// The topic of this subscription.
    pub fn topic(&self) -> (r: &Vec<u8>)
        ensures
            r@ == self.spec_topic(),
    {
        &self.topic
    }

    /// Takes in a pushed message; its item goes to the end of the sequence.
    pub fn push(&mut self, data: Option<&str>)
        requires
            old(self).wf(),
        ensures
            final(self).wf(),
            final(self).spec_topic() == old(self).spec_topic(),
            final(self)@ == old(self)@.push(
                spec_message(
                    match data {
                        Some(s) => Some(s@),
                        None => None,
                    },
                ),
            ),
    {
        let item = deserialize_message(data);
        self.items.push(item);
        assert(self@ =~= old(self)@.push(item));
    }

    /// The next item, or `None` where none has arrived yet.
    pub fn next(&mut self) -> (r: Option<Result<i32, Error>>)
        requires
            old(self).wf(),
        ensures
            final(self).wf(),
            final(self).spec_topic() == old(self).spec_topic(),
            old(self)@.len() == 0 ==> r is None && final(self)@ == old(self)@,
            old(self)@.len() > 0 ==> r == Some(old(self)@[0]) && final(self)@ == old(self)@.drop_first(),
    {
        if self.head < self.items.len() {
            let item = self.items[self.head];
            self.head = self.head + 1;
            assert(self@ =~= old(self)@.drop_first());
            Some(item)
        } else {
            None
        }
    }

    /// Reads up to `n` items, fewer where fewer have arrived.
    pub fn take(&mut self, n: usize) -> (r: Vec<Result<i32, Error>>)
        requires
            old(self).wf(),
        ensures
            final(self).wf(),
            final(self).spec_topic() == old(self).spec_topic(),
            ({
                let k = if n < old(self)@.len() { n as int } else { old(self)@.len() as int };
                r@ == old(self)@.take(k) && final(self)@ == old(self)@.skip(k)
            }),
    {
        let mut r: Vec<Result<i32, Error>> = Vec::new();
        while r.len() < n && self.head < self.items.len()
            invariant
                self.wf(),
                self.topic == old(self).topic,
                self.items == old(self).items,
                r@.len() <= n,
                old(self).head + r@.len() == self.head,
                r@ == old(self)@.take(r@.len() as int),
                self@ == old(self)@.skip(r@.len() as int),
            decreases n - r@.len(),
        {
            let item = self.items[self.head];
            r.push(item);
            self.head = self.head + 1;
            assert(r@ =~= old(self)@.take(r@.len() as int));
            assert(self@ =~= old(self)@.skip(r@.len() as int));
        }
        r
    }
}

} // verus!
