//! The server side: a table from call identity to handler, and dispatch of
//! incoming frames through it.
use vstd::prelude::*;
use vstd::string::StringSliceAdditionalSpecFns;
use crate::bytes::{copy_range, same_bytes};
use crate::envelope::{
    Codec, Envelope, valid_identity, frame, unframe, unframe_request, response_frame,
    check_identity, decode, decode_request, encode_response, lemma_round_trip,
};
use crate::error::Error;

verus! {

/// The body of a remote function: it decodes its arguments, runs, and
/// encodes its output.
pub trait RpcHandler {
    /// The encoded output for encoded arguments, or `None` where the
    /// arguments do not decode as the function's argument type.
    spec fn spec_run(&self, args: Seq<u8>) -> Option<Seq<u8>>;

    fn run(&self, args: &[u8]) -> (r: Option<Vec<u8>>)
        ensures
            match r {
                Some(out) => self.spec_run(args@) == Some(out@),
                None => self.spec_run(args@) is None,
            },
    ;
}

/// A table is well formed when each identity is valid and none occurs twice.
pub open spec fn table_wf<H>(s: Seq<(Seq<u8>, H)>) -> bool {
    &&& forall|i: int| 0 <= i < s.len() ==> valid_identity(#[trigger] s[i].0)
    &&& forall|i: int, j: int|
        #![trigger s[i], s[j]]
        0 <= i < s.len() && 0 <= j < s.len() && i != j ==> s[i].0 != s[j].0
}

pub open spec fn registered<H>(s: Seq<(Seq<u8>, H)>, id: Seq<u8>) -> bool {
    exists|i: int| 0 <= i < s.len() && s[i].0 == id
}

/// The position of `id` in the table, if it is registered.
pub open spec fn find<H>(s: Seq<(Seq<u8>, H)>, id: Seq<u8>) -> Option<int> {
    if registered(s, id) {
        Some(choose|i: int| 0 <= i < s.len() && s[i].0 == id)
    } else {
        None
    }
}

/// What running the call `id` on the arguments `body` through the table
/// returns.
pub open spec fn spec_route<H: RpcHandler>(s: Seq<(Seq<u8>, H)>, id: Seq<u8>, body: Seq<u8>) -> Result<Seq<u8>, Error> {
    match find(s, id) {
        None => Err(Error::FunctionNotFound),
        Some(i) => match s[i].1.spec_run(body) {
            Some(out) => Ok(out),
            None => Err(Error::Deserialization),
        },
    }
}

/// What dispatching the frame `msg` through the table returns.
pub open spec fn spec_dispatch<H: RpcHandler>(s: Seq<(Seq<u8>, H)>, codec: Codec, msg: Seq<u8>) -> Result<Seq<u8>, Error> {
    match unframe(codec, msg) {
        None => Err(Error::Protocol),
        Some((id, body)) => spec_route(s, id, body),
    }
}

/// What answering the token-tagged call `msg` of a persistent connection
/// returns: the result frame under the call's token.
pub open spec fn spec_answer<H: RpcHandler>(s: Seq<(Seq<u8>, H)>, msg: Seq<u8>) -> Result<Seq<u8>, Error> {
    match unframe_request(msg) {
        None => Err(Error::Protocol),
        Some((t, id, body)) => match spec_route(s, id, body) {
            Ok(out) => Ok(response_frame(t, out)),
            Err(e) => Err(e),
        },
    }
}

pub open spec fn result_view(r: Result<Vec<u8>, Error>) -> Result<Seq<u8>, Error> {
    match r {
        Ok(v) => Ok(v@),
        Err(e) => Err(e),
    }
}

/// A frame whose identity is registered, and whose body the handler accepts,
/// gives that handler's output.
pub proof fn lemma_dispatch_registered<H: RpcHandler>(
    s: Seq<(Seq<u8>, H)>,
    codec: Codec,
    i: int,
    body: Seq<u8>,
)
    requires
        table_wf(s),
        0 <= i < s.len(),
        s[i].1.spec_run(body) is Some,
    ensures
        spec_dispatch(s, codec, frame(codec, s[i].0, body)) == Ok::<Seq<u8>, Error>(
            s[i].1.spec_run(body)->0,
        ),
{
    lemma_round_trip(codec, s[i].0, body);
    assert(registered(s, s[i].0));
}

/// A frame whose identity is not registered gives `FunctionNotFound`.
pub proof fn lemma_dispatch_unknown<H: RpcHandler>(
    s: Seq<(Seq<u8>, H)>,
    codec: Codec,
    id: Seq<u8>,
    body: Seq<u8>,
)
    requires
        valid_identity(id),
        !registered(s, id),
    ensures
        spec_dispatch(s, codec, frame(codec, id, body)) == Err::<Seq<u8>, Error>(
            Error::FunctionNotFound,
        ),
{
    lemma_round_trip(codec, id, body);
}

/// No two entries of a well-formed table share an identity.
pub proof fn lemma_identities_distinct<H>(s: Seq<(Seq<u8>, H)>, i: int, j: int)
    requires
        table_wf(s),
        0 <= i < s.len(),
        0 <= j < s.len(),
        i != j,
    ensures
        s[i].0 != s[j].0,
{
}

pub open spec fn entries_view<H>(t: Seq<(Vec<u8>, H)>) -> Seq<(Seq<u8>, H)> {
    t.map_values(|e: (Vec<u8>, H)| (e.0@, e.1))
}

/// The position of `id` in `t`, if any.
fn position<H>(t: &Vec<(Vec<u8>, H)>, id: &[u8]) -> (r: Option<usize>)
    requires
        table_wf(entries_view(t@)),
    ensures
        match r {
            Some(i) => i < t@.len() && find(entries_view(t@), id@) == Some(i as int),
            None => find(entries_view(t@), id@) is None,
        },
{
    let ghost s = entries_view(t@);
    let mut i: usize = 0;
    while i < t.len()
        invariant
            i <= t@.len(),
            s == entries_view(t@),
            table_wf(s),
            forall|j: int| 0 <= j < i ==> s[j].0 != id@,
        decreases t@.len() - i,
    {
        if same_bytes(t[i].0.as_slice(), id) {
            proof {
                assert(s[i as int].0 == id@);
                assert(registered(s, id@));
                let k = choose|k: int| 0 <= k < s.len() && s[k].0 == id@;
                if k != i as int {
                    assert(s[k].0 == s[i as int].0);
                }
            }
            return Some(i);
        }
        i = i + 1;
    }
    None
}

/// A collection of remote functions, built before the server starts.
pub struct WebSocketRouter<H> {
    entries: Vec<(Vec<u8>, H)>,
}

impl<H> View for WebSocketRouter<H> {
    type V = Seq<(Seq<u8>, H)>;

    closed spec fn view(&self) -> Seq<(Seq<u8>, H)> {
        entries_view(self.entries@)
    }
}

impl<H: RpcHandler> WebSocketRouter<H> {
    /// An empty router.
    pub fn new() -> (r: Self)
        ensures
            r@ == Seq::<(Seq<u8>, H)>::empty(),
            table_wf(r@),
    {
        let r = WebSocketRouter { entries: Vec::new() };
        assert(r@ =~= Seq::<(Seq<u8>, H)>::empty());
        r
    }

    /// Adds `f` under the identity `id`. Fails where `id` is not a valid
    /// identity, or is registered already.
    pub fn handle(self, id: &str, f: H) -> (r: Result<Self, Error>)
        requires
            table_wf(self@),
        ensures
            match r {
                Ok(t) => {
                    &&& valid_identity(id.spec_bytes())
                    &&& !registered(self@, id.spec_bytes())
                    &&& t@ == self@.push((id.spec_bytes(), f))
                    &&& table_wf(t@)
                },
                Err(e) => if !valid_identity(id.spec_bytes()) {
                    e == Error::InvalidIdentity
                } else {
                    registered(self@, id.spec_bytes()) && e == Error::DuplicateId
                },
            },
    {
        let b = id.as_bytes();
        if !check_identity(b) {
            return Err(Error::InvalidIdentity);
        }
        if position(&self.entries, b).is_some() {
            return Err(Error::DuplicateId);
        }
        let mut entries = self.entries;
        let key = copy_range(b, 0, b.len());
        assert(b@.subrange(0, b@.len() as int) =~= b@);
        let ghost before = entries_view(entries@);
        entries.push((key, f));
        let r = WebSocketRouter { entries };
        assert(r@ =~= before.push((id.spec_bytes(), f)));
        Ok(r)
    }
}

/// Dispatches raw frames to the functions of a router.
pub struct WebSocketHandler<H> {
    entries: Vec<(Vec<u8>, H)>,
}

impl<H> View for WebSocketHandler<H> {
    type V = Seq<(Seq<u8>, H)>;

    closed spec fn view(&self) -> Seq<(Seq<u8>, H)> {
        entries_view(self.entries@)
    }
}

impl<H: RpcHandler> WebSocketHandler<H> {
    pub fn new(router: WebSocketRouter<H>) -> (r: Self)
        ensures
            r@ == router@,
    {
        WebSocketHandler { entries: router.entries }
    }

    /// Decodes a frame of the codec, finds the function of its identity
    /// and runs it on the frame's body.
    pub fn dispatch(&self, codec: Codec, msg: &[u8]) -> (r: Result<Vec<u8>, Error>)
        requires
            table_wf(self@),
        ensures
            result_view(r) == spec_dispatch(self@, codec, msg@),
    {
        match decode(codec, msg) {
            Ok(e) => self.route(&e),
            Err(x) => Err(x),
        }
    }

    /// Runs the call of an envelope.
    pub fn route(&self, e: &Envelope) -> (r: Result<Vec<u8>, Error>)
        requires
            table_wf(self@),
        ensures
            result_view(r) == spec_route(self@, e.identity@, e.body@),
    {
        let i = match position(&self.entries, e.identity.as_slice()) {
            Some(i) => i,
            None => {
                return Err(Error::FunctionNotFound);
            },
        };
        match self.entries[i].1.run(e.body.as_slice()) {
            Some(out) => Ok(out),
            None => Err(Error::Deserialization),
        }
    }

    /// Answers a token-tagged call of a persistent connection.
    pub fn answer(&self, msg: &[u8]) -> (r: Result<Vec<u8>, Error>)
        requires
            table_wf(self@),
        ensures
            result_view(r) == spec_answer(self@, msg@),
    {
        match decode_request(msg) {
            Ok((t, e)) => match self.route(&e) {
                Ok(out) => Ok(encode_response(t, out.as_slice())),
                Err(x) => Err(x),
            },
            Err(x) => Err(x),
        }
    }

    /// Handles a raw binary frame of a websocket.
    pub fn handle_msg(&self, msg: &[u8]) -> (r: Result<Vec<u8>, Error>)
        requires
            table_wf(self@),
        ensures
            result_view(r) == spec_dispatch(self@, Codec::Binary, msg@),
    {
        self.dispatch(Codec::Binary, msg)
    }
}

} // verus!
