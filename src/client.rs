//! Client-side correlation of results to outstanding calls on one persistent
//! connection. Each call gets a fresh token; a result is matched to its call
//! by token, whatever order results arrive in.
use std::collections::HashMap;
use vstd::prelude::*;
use crate::envelope::{
    Envelope, valid_identity, request_frame, response_frame, unframe_response, encode_request,
    decode_response, lemma_response_round_trip, lemma_tagged_round_trip,
};
use crate::error::Error;
use crate::server::{RpcHandler, spec_route, spec_answer};

verus! {

broadcast use vstd::std_specs::hash::group_hash_axioms;

/// The state of the calls of a connection.
pub struct CallsView {
    /// The token that the next call gets.
    pub next: u64,
    /// Outstanding calls by token: `None` while the result is awaited,
    /// `Some(body)` once it arrived and until it is taken.
    pub slots: Map<u64, Option<Seq<u8>>>,
    /// Whether the connection has closed.
    pub closed: bool,
}

impl CallsView {
    /// Only issued tokens have slots, and a closed connection has none.
    pub open spec fn wf(self) -> bool {
        &&& forall|t: u64| #[trigger] self.slots.contains_key(t) ==> t < self.next
        &&& self.closed ==> self.slots.dom().is_empty()
    }
}

/// What issuing a call does: the next token gets an empty slot.
pub open spec fn spec_begin(v: CallsView) -> CallsView {
    CallsView { next: (v.next + 1) as u64, slots: v.slots.insert(v.next, None), closed: v.closed }
}

/// What an arriving result frame does, and what `receive` returns for it.
pub open spec fn spec_receive(v: CallsView, s: Seq<u8>) -> (CallsView, Result<u64, Error>) {
    match unframe_response(s) {
        None => (v, Err(Error::Protocol)),
        Some((t, body)) => if v.slots.contains_key(t) && v.slots[t] is None {
            (CallsView { slots: v.slots.insert(t, Some(body)), ..v }, Ok(t))
        } else {
            (v, Err(Error::UnknownToken))
        },
    }
}

/// What polling the call `t` does: `None` while it is awaited, else its
/// outcome, which also releases its slot.
pub open spec fn spec_poll(v: CallsView, t: u64) -> (CallsView, Option<Result<Seq<u8>, Error>>) {
    if v.slots.contains_key(t) {
        match v.slots[t] {
            Some(body) => (CallsView { slots: v.slots.remove(t), ..v }, Some(Ok(body))),
            None => (v, None),
        }
    } else if v.closed && t < v.next {
        (v, Some(Err(Error::ConnectionClosed)))
    } else {
        (v, Some(Err(Error::UnknownToken)))
    }
}

/// What closing the connection does: every slot is released.
pub open spec fn spec_close(v: CallsView) -> CallsView {
    CallsView { next: v.next, slots: Map::empty(), closed: true }
}

/// The view of a slot's contents.
pub open spec fn opt_view(o: Option<Vec<u8>>) -> Option<Seq<u8>> {
    match o {
        Some(b) => Some(b@),
        None => None,
    }
}

/// The view of what `poll` returns.
pub open spec fn outcome_view(o: Option<Result<Vec<u8>, Error>>) -> Option<Result<Seq<u8>, Error>> {
    match o {
        Some(Ok(b)) => Some(Ok(b@)),
        Some(Err(e)) => Some(Err(e)),
        None => None,
    }
}

/// Results are matched by token, not by order: with calls `a` then `b`
/// outstanding, `b`'s result completes `b` while `a` still waits, and `a`
/// completes once its own result arrives; then no slot of theirs is left.
pub proof fn lemma_out_of_order(v: CallsView, body_a: Seq<u8>, body_b: Seq<u8>)
    requires
        v.wf(),
        !v.closed,
        v.next + 2 <= u64::MAX,
    ensures
        ({
            let a = v.next;
            let b = (v.next + 1) as u64;
            let v2 = spec_begin(spec_begin(v));
            let (v3, rb) = spec_receive(v2, response_frame(b, body_b));
            let (v4, pa) = spec_poll(v3, a);
            let (v5, pb) = spec_poll(v4, b);
            let (v6, ra) = spec_receive(v5, response_frame(a, body_a));
            let (v7, pa2) = spec_poll(v6, a);
            &&& rb == Ok::<u64, Error>(b)
            &&& pa is None
            &&& pb == Some(Ok::<Seq<u8>, Error>(body_b))
            &&& ra == Ok::<u64, Error>(a)
            &&& pa2 == Some(Ok::<Seq<u8>, Error>(body_a))
            &&& v7.slots == v.slots
        }),
{
    let a = v.next;
    let b = (v.next + 1) as u64;
    lemma_response_round_trip(a, body_a);
    lemma_response_round_trip(b, body_b);
    let v2 = spec_begin(spec_begin(v));
    assert(!v.slots.contains_key(a) && !v.slots.contains_key(b));
    let (v3, rb) = spec_receive(v2, response_frame(b, body_b));
    let (v4, pa) = spec_poll(v3, a);
    let (v5, pb) = spec_poll(v4, b);
    let (v6, ra) = spec_receive(v5, response_frame(a, body_a));
    let (v7, pa2) = spec_poll(v6, a);
    assert(v7.slots =~= v.slots);
}

/// Closing a connection ends every outstanding call with `ConnectionClosed`
/// and leaves no slot.
pub proof fn lemma_close_drains(v: CallsView, t: u64)
    requires
        v.wf(),
        v.slots.contains_key(t),
    ensures
        spec_close(v).wf(),
        spec_close(v).slots.dom().is_empty(),
        spec_poll(spec_close(v), t).1 == Some(Err::<Seq<u8>, Error>(Error::ConnectionClosed)),
{
}

/// A call issued on a connection, answered by a server and received back,
/// completes with what the server's function returned for its arguments.
pub proof fn lemma_call_answered<H: RpcHandler>(
    v: CallsView,
    s: Seq<(Seq<u8>, H)>,
    id: Seq<u8>,
    body: Seq<u8>,
)
    requires
        v.wf(),
        !v.closed,
        v.next < u64::MAX,
        valid_identity(id),
        spec_route(s, id, body) is Ok,
    ensures
        ({
            let t = v.next;
            let answer = spec_answer(s, request_frame(t, id, body));
            let (v2, got) = spec_receive(spec_begin(v), answer->Ok_0);
            &&& answer is Ok
            &&& got == Ok::<u64, Error>(t)
            &&& spec_poll(v2, t).1 == Some(Ok::<Seq<u8>, Error>(spec_route(s, id, body)->Ok_0))
            &&& spec_poll(v2, t).0.slots == v.slots
        }),
{
    let t = v.next;
    lemma_tagged_round_trip(t, id, body);
    lemma_response_round_trip(t, spec_route(s, id, body)->Ok_0);
    let answer = spec_answer(s, request_frame(t, id, body));
    let (v2, got) = spec_receive(spec_begin(v), answer->Ok_0);
    assert(!v.slots.contains_key(t));
    assert(spec_poll(v2, t).0.slots =~= v.slots);
}

/// The client side of a persistent connection.
pub struct Connection {
    next: u64,
    slots: HashMap<u64, Option<Vec<u8>>>,
    closed: bool,
}

impl View for Connection {
    type V = CallsView;

    closed spec fn view(&self) -> CallsView {
        CallsView {
            next: self.next,
            slots: self.slots@.map_values(|o: Option<Vec<u8>>| opt_view(o)),
            closed: self.closed,
        }
    }
}

impl Connection {
    /// A connection with no call issued yet.
    pub fn new() -> (r: Connection)
        ensures
            r@.wf(),
            r@.next == 1,
            r@.slots.dom().is_empty(),
            !r@.closed,
    {
        let r = Connection { next: 1, slots: HashMap::new(), closed: false };
        assert(r@.slots =~= Map::empty());
        r
    }

    /// Issues a call: on success returns its token and the frame to send.
    pub fn begin_call(&mut self, e: &Envelope) -> (r: Result<(u64, Vec<u8>), Error>)
        requires
            old(self)@.wf(),
        ensures
            final(self)@.wf(),
            match r {
                Ok((t, f)) => {
                    &&& !old(self)@.closed && valid_identity(e.identity@)
                    &&& old(self)@.next < u64::MAX
                    &&& t == old(self)@.next
                    &&& f@ == request_frame(t, e.identity@, e.body@)
                    &&& final(self)@ == spec_begin(old(self)@)
                },
                Err(x) => {
                    &&& final(self)@ == old(self)@
                    &&& x == if old(self)@.closed {
                        Error::ConnectionClosed
                    } else if !valid_identity(e.identity@) {
                        Error::InvalidIdentity
                    } else {
                        Error::TokensExhausted
                    }
                    &&& (old(self)@.closed || !valid_identity(e.identity@) || old(self)@.next
                        == u64::MAX)
                },
            },
    {
        if self.closed {
            return Err(Error::ConnectionClosed);
        }
        let token = self.next;
        let f = match encode_request(token, e) {
            Ok(f) => f,
            Err(x) => {
                return Err(x);
            },
        };
        if token == u64::MAX {
            return Err(Error::TokensExhausted);
        }
        let ghost old_slots = self.slots@;
        self.slots.insert(token, None);
        self.next = token + 1;
        proof {
            assert(self.slots@ == old_slots.insert(token, None));
            assert(self@.slots =~= old(self)@.slots.insert(token, None));
        }
        Ok((token, f))
    }

    /// Takes in a result frame and fills the slot of its call.
    pub fn receive(&mut self, s: &[u8]) -> (r: Result<u64, Error>)
        requires
            old(self)@.wf(),
        ensures
            final(self)@.wf(),
            (final(self)@, r) == spec_receive(old(self)@, s@),
    {
        let (t, body) = match decode_response(s) {
            Ok(p) => p,
            Err(x) => {
                return Err(x);
            },
        };
        let waiting = match self.slots.get(&t) {
            Some(slot) => slot.is_none(),
            None => false,
        };
        if !waiting {
            return Err(Error::UnknownToken);
        }
        let ghost old_slots = self.slots@;
        self.slots.insert(t, Some(body));
        proof {
            assert(self@.slots =~= old(self)@.slots.insert(t, Some(body@)));
        }
        Ok(t)
    }

    /// Polls the call `t`: `None` while its result is awaited.
    pub fn poll(&mut self, t: u64) -> (r: Option<Result<Vec<u8>, Error>>)
        requires
            old(self)@.wf(),
        ensures
            final(self)@.wf(),
            (final(self)@, outcome_view(r)) == spec_poll(old(self)@, t),
    {
        match self.slots.remove(&t) {
            Some(Some(body)) => {
                proof {
                    assert(self@.slots =~= old(self)@.slots.remove(t));
                }
                Some(Ok(body))
            },
            Some(None) => {
                self.slots.insert(t, None);
                proof {
                    assert(self@.slots =~= old(self)@.slots);
                }
                None
            },
            None => {
                proof {
                    assert(self@.slots =~= old(self)@.slots);
                }
                if self.closed && t < self.next {
                    Some(Err(Error::ConnectionClosed))
                } else {
                    Some(Err(Error::UnknownToken))
                }
            },
        }
    }

    /// Releases the slot of call `t`, whose caller gave up on it or whose
    /// send failed.
    pub fn abandon(&mut self, t: u64)
        requires
            old(self)@.wf(),
        ensures
            final(self)@.wf(),
            final(self)@ == (CallsView { slots: old(self)@.slots.remove(t), ..old(self)@ }),
    {
        self.slots.remove(&t);
        proof {
            assert(self@.slots =~= old(self)@.slots.remove(t));
        }
    }

    /// Closes the connection: every outstanding call now ends with
    /// `ConnectionClosed`, and no slot is left.
    pub fn close(&mut self)
        requires
            old(self)@.wf(),
        ensures
            final(self)@.wf(),
            final(self)@ == spec_close(old(self)@),
    {
        self.slots.clear();
        self.closed = true;
        proof {
            assert(self@.slots =~= Map::empty());
        }
    }

    /// The number of calls that hold a slot.
    pub fn outstanding(&self) -> (r: usize)
        ensures
            r == self@.slots.dom().len(),
    {
        proof {
            assert(self@.slots.dom() =~= self.slots@.dom());
        }
        self.slots.len()
    }
}

} // verus!
