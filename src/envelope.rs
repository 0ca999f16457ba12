//! Wire frames: an identity and a body, in a binary or a text codec, and the
//! token-tagged frames of a persistent connection.
use vstd::prelude::*;
use crate::bytes::{
    be32, be64, read64, lemma_read32, lemma_read64, lemma_be32_of_read,
    push_be32, push_be64, get_be32,
    get_be64, push_range, copy_range,
};
use crate::error::Error;
use crate::mime::MimeType;

verus! {

/// The byte that ends the identity in the text codec.
pub const NEWLINE: u8 = 10;

/// A lowercase ASCII letter, a digit or a hyphen.
pub open spec fn is_id_byte(b: u8) -> bool {
    (97 <= b && b <= 122) || (48 <= b && b <= 57) || b == 45
}

/// An identity is non-empty lowercase-hyphenated text whose length fits a
/// 32-bit length prefix.
pub open spec fn valid_identity(id: Seq<u8>) -> bool {
    0 < id.len() <= u32::MAX && forall|i: int| 0 <= i < id.len() ==> is_id_byte(#[trigger] id[i])
}

/// How a frame is laid out on the wire.
#[derive(Copy, Clone, Debug, PartialEq, Eq, Structural)]
pub enum Codec {
    /// A 32-bit big-endian identity length, the identity, then the body.
    Binary,
    /// The identity, a newline, then the body.
    Text,
}

/// A call or its result as it travels: an identity and an encoded body.
#[derive(Clone, Debug)]
pub struct Envelope {
    pub identity: Vec<u8>,
    pub body: Vec<u8>,
}

/// The bytes of a frame holding `id` and `body`.
pub open spec fn frame(codec: Codec, id: Seq<u8>, body: Seq<u8>) -> Seq<u8> {
    match codec {
        Codec::Binary => be32(id.len() as u32) + id + body,
        Codec::Text => id + seq![NEWLINE] + body,
    }
}

/// `s` is the frame of a valid identity `id` and of `body`.
pub open spec fn is_frame_of(codec: Codec, s: Seq<u8>, id: Seq<u8>, body: Seq<u8>) -> bool {
    valid_identity(id) && s == frame(codec, id, body)
}

/// What a sequence of bytes holds as a frame, if it is one.
pub open spec fn unframe(codec: Codec, s: Seq<u8>) -> Option<(Seq<u8>, Seq<u8>)> {
    if exists|id: Seq<u8>, body: Seq<u8>| is_frame_of(codec, s, id, body) {
        Some(choose|id: Seq<u8>, body: Seq<u8>| is_frame_of(codec, s, id, body))
    } else {
        None
    }
}

/// The codec that serves a negotiated mime type.
pub open spec fn codec_of(m: MimeType) -> Option<Codec> {
    match m {
        MimeType::Cbor => Some(Codec::Binary),
        MimeType::Json => Some(Codec::Text),
        MimeType::XwwwFormUrlencoded => None,
    }
}

impl Codec {
    /// Selects the codec by content type: CBOR is binary, JSON is text.
    pub fn for_mime(m: MimeType) -> (r: Option<Codec>)
        ensures
            r == codec_of(m),
    {
        match m {
            MimeType::Cbor => Some(Codec::Binary),
            MimeType::Json => Some(Codec::Text),
            MimeType::XwwwFormUrlencoded => None,
        }
    }
}

/// A frame determines its identity and body.
pub proof fn lemma_frame_unique(
    codec: Codec,
    s: Seq<u8>,
    id1: Seq<u8>,
    b1: Seq<u8>,
    id2: Seq<u8>,
    b2: Seq<u8>,
)
    requires
        is_frame_of(codec, s, id1, b1),
        is_frame_of(codec, s, id2, b2),
    ensures
        id1 == id2,
        b1 == b2,
{
    match codec {
        Codec::Binary => {
            assert(s.subrange(0, 4) =~= be32(id1.len() as u32));
            assert(s.subrange(0, 4) =~= be32(id2.len() as u32));
            lemma_read32(id1.len() as u32);
            lemma_read32(id2.len() as u32);
            let n = id1.len() as int;
            assert(id1 =~= s.subrange(4, 4 + n));
            assert(id2 =~= s.subrange(4, 4 + n));
            assert(b1 =~= s.subrange(4 + n, s.len() as int));
            assert(b2 =~= s.subrange(4 + n, s.len() as int));
        },
        Codec::Text => {
            if id1.len() < id2.len() {
                assert(s[id1.len() as int] == NEWLINE);
                assert(is_id_byte(id2[id1.len() as int]));
                assert(false);
            }
            if id2.len() < id1.len() {
                assert(s[id2.len() as int] == NEWLINE);
                assert(is_id_byte(id1[id2.len() as int]));
                assert(false);
            }
            let n = id1.len() as int;
            assert(id1 =~= s.subrange(0, n));
            assert(id2 =~= s.subrange(0, n));
            assert(b1 =~= s.subrange(n + 1, s.len() as int));
            assert(b2 =~= s.subrange(n + 1, s.len() as int));
        },
    }
}

/// Decoding an encoded frame gives back its identity and body, in both codecs.
pub proof fn lemma_round_trip(codec: Codec, id: Seq<u8>, body: Seq<u8>)
    requires
        valid_identity(id),
    ensures
        unframe(codec, frame(codec, id, body)) == Some((id, body)),
{
    let s = frame(codec, id, body);
    assert(is_frame_of(codec, s, id, body));
    let (i2, b2) = choose|i: Seq<u8>, b: Seq<u8>| is_frame_of(codec, s, i, b);
    lemma_frame_unique(codec, s, id, body, i2, b2);
}

/// Whether `id` is a valid identity.
pub fn check_identity(id: &[u8]) -> (r: bool)
    ensures
        r == valid_identity(id@),
{
    if id.len() == 0 || id.len() > 0xffff_ffff {
        return false;
    }
    let mut i: usize = 0;
    while i < id.len()
        invariant
            i <= id@.len(),
            forall|j: int| 0 <= j < i ==> is_id_byte(#[trigger] id@[j]),
        decreases id@.len() - i,
    {
        let b = id[i];
        if !((97 <= b && b <= 122) || (48 <= b && b <= 57) || b == 45) {
            assert(!is_id_byte(id@[i as int]));
            return false;
        }
        i = i + 1;
    }
    true
}

/// Encodes an envelope; fails exactly when its identity is not valid.
pub fn encode(codec: Codec, e: &Envelope) -> (r: Result<Vec<u8>, Error>)
    ensures
        match r {
            Ok(v) => valid_identity(e.identity@) && v@ == frame(codec, e.identity@, e.body@),
            Err(x) => !valid_identity(e.identity@) && x == Error::InvalidIdentity,
        },
{
    if !check_identity(e.identity.as_slice()) {
        return Err(Error::InvalidIdentity);
    }
    let mut v: Vec<u8> = Vec::new();
    match codec {
        Codec::Binary => {
            push_be32(&mut v, e.identity.len() as u32);
        },
        Codec::Text => {},
    }
    push_range(&mut v, e.identity.as_slice(), 0, e.identity.len());
    match codec {
        Codec::Binary => {},
        Codec::Text => {
            v.push(NEWLINE);
        },
    }
    push_range(&mut v, e.body.as_slice(), 0, e.body.len());
    assert(e.identity@.subrange(0, e.identity@.len() as int) =~= e.identity@);
    assert(e.body@.subrange(0, e.body@.len() as int) =~= e.body@);
    assert(v@ =~= frame(codec, e.identity@, e.body@));
    Ok(v)
}

/// A frame known to hold `id` and `body` decodes to them.
proof fn lemma_found(codec: Codec, s: Seq<u8>, id: Seq<u8>, body: Seq<u8>)
    requires
        is_frame_of(codec, s, id, body),
    ensures
        unframe(codec, s) == Some((id, body)),
{
    let (i2, b2) = choose|i: Seq<u8>, b: Seq<u8>| is_frame_of(codec, s, i, b);
    lemma_frame_unique(codec, s, id, body, i2, b2);
}

fn decode_binary(s: &[u8]) -> (r: Result<Envelope, Error>)
    ensures
        match r {
            Ok(e) => unframe(Codec::Binary, s@) == Some((e.identity@, e.body@)),
            Err(x) => unframe(Codec::Binary, s@) is None && x == Error::Protocol,
        },
{
    let c = Codec::Binary;
    if s.len() < 4 {
        assert forall|id: Seq<u8>, body: Seq<u8>| !is_frame_of(c, s@, id, body) by {
            if is_frame_of(c, s@, id, body) {
                assert(frame(c, id, body).len() >= 4);
            }
        }
        return Err(Error::Protocol);
    }
    let n = get_be32(s, 0);
    let fits = (n as usize) <= s.len() - 4;
    let ok = fits && check_identity(vstd::slice::slice_subrange(s, 4, 4 + n as usize));
    if !ok {
        assert forall|id: Seq<u8>, body: Seq<u8>| !is_frame_of(c, s@, id, body) by {
            if is_frame_of(c, s@, id, body) {
                assert(s@.subrange(0, 4) =~= be32(id.len() as u32));
                lemma_read32(id.len() as u32);
                assert(id =~= s@.subrange(4, 4 + id.len() as int));
            }
        }
        return Err(Error::Protocol);
    }
    let end = 4 + n as usize;
    let identity = copy_range(s, 4, end);
    let body = copy_range(s, end, s.len());
    proof {
        assert(identity@.len() == n);
        lemma_be32_of_read(s@.subrange(0, 4));
        assert(s@ =~= frame(c, identity@, body@));
        lemma_found(c, s@, identity@, body@);
    }
    Ok(Envelope { identity, body })
}

fn decode_text(s: &[u8]) -> (r: Result<Envelope, Error>)
    ensures
        match r {
            Ok(e) => unframe(Codec::Text, s@) == Some((e.identity@, e.body@)),
            Err(x) => unframe(Codec::Text, s@) is None && x == Error::Protocol,
        },
{
    let c = Codec::Text;
    let mut i: usize = 0;
    while i < s.len() && s[i] != NEWLINE
        invariant
            i <= s@.len(),
            forall|j: int| 0 <= j < i ==> s@[j] != NEWLINE,
        decreases s@.len() - i,
    {
        i = i + 1;
    }
    if i == s.len() || !check_identity(vstd::slice::slice_subrange(s, 0, i)) {
        assert forall|id: Seq<u8>, body: Seq<u8>| !is_frame_of(c, s@, id, body) by {
            if is_frame_of(c, s@, id, body) {
                assert(s@[id.len() as int] == NEWLINE);
                if id.len() > i {
                    assert(s@[i as int] == id[i as int]);
                    assert(is_id_byte(id[i as int]));
                }
                assert(id.len() == i);
                assert(id =~= s@.subrange(0, i as int));
            }
        }
        return Err(Error::Protocol);
    }
    let identity = copy_range(s, 0, i);
    let body = copy_range(s, i + 1, s.len());
    proof {
        assert(s@ =~= frame(c, identity@, body@));
        lemma_found(c, s@, identity@, body@);
    }
    Ok(Envelope { identity, body })
}

/// Decodes a frame; fails exactly when the bytes are no frame of the codec.
pub fn decode(codec: Codec, s: &[u8]) -> (r: Result<Envelope, Error>)
    ensures
        match r {
            Ok(e) => unframe(codec, s@) == Some((e.identity@, e.body@)),
            Err(x) => unframe(codec, s@) is None && x == Error::Protocol,
        },
{
    match codec {
        Codec::Binary => decode_binary(s),
        Codec::Text => decode_text(s),
    }
}


/// A call on a persistent connection: its token, then a binary frame.
pub open spec fn request_frame(token: u64, id: Seq<u8>, body: Seq<u8>) -> Seq<u8> {
    be64(token) + frame(Codec::Binary, id, body)
}

/// A result on a persistent connection: the token of its call, then the body.
pub open spec fn response_frame(token: u64, body: Seq<u8>) -> Seq<u8> {
    be64(token) + body
}

/// The token, identity and body that a call frame holds, if it is one.
pub open spec fn unframe_request(s: Seq<u8>) -> Option<(u64, Seq<u8>, Seq<u8>)> {
    if s.len() < 8 {
        None
    } else {
        match unframe(Codec::Binary, s.subrange(8, s.len() as int)) {
            Some((id, body)) => Some((read64(s.subrange(0, 8)), id, body)),
            None => None,
        }
    }
}

/// The token and body that a result frame holds, if it is one.
pub open spec fn unframe_response(s: Seq<u8>) -> Option<(u64, Seq<u8>)> {
    if s.len() < 8 {
        None
    } else {
        Some((read64(s.subrange(0, 8)), s.subrange(8, s.len() as int)))
    }
}

/// Decoding an encoded request or response gives back what was encoded.
pub proof fn lemma_tagged_round_trip(token: u64, id: Seq<u8>, body: Seq<u8>)
    requires
        valid_identity(id),
    ensures
        unframe_request(request_frame(token, id, body)) == Some((token, id, body)),
        unframe_response(response_frame(token, body)) == Some((token, body)),
{
    let q = request_frame(token, id, body);
    assert(q.subrange(0, 8) =~= be64(token));
    assert(q.subrange(8, q.len() as int) =~= frame(Codec::Binary, id, body));
    lemma_read64(token);
    lemma_round_trip(Codec::Binary, id, body);
    lemma_response_round_trip(token, body);
}

/// Decoding an encoded response gives back its token and body.
pub proof fn lemma_response_round_trip(token: u64, body: Seq<u8>)
    ensures
        unframe_response(response_frame(token, body)) == Some((token, body)),
{
    let p = response_frame(token, body);
    assert(p.subrange(0, 8) =~= be64(token));
    assert(p.subrange(8, p.len() as int) =~= body);
    lemma_read64(token);
}

/// Encodes a call under `token`; fails exactly when the identity is not valid.
pub fn encode_request(token: u64, e: &Envelope) -> (r: Result<Vec<u8>, Error>)
    ensures
        match r {
            Ok(v) => valid_identity(e.identity@) && v@ == request_frame(token, e.identity@, e.body@),
            Err(x) => !valid_identity(e.identity@) && x == Error::InvalidIdentity,
        },
{
    match encode(Codec::Binary, e) {
        Ok(f) => {
            let mut v: Vec<u8> = Vec::new();
            push_be64(&mut v, token);
            push_range(&mut v, f.as_slice(), 0, f.len());
            assert(f@.subrange(0, f@.len() as int) =~= f@);
            Ok(v)
        },
        Err(x) => Err(x),
    }
}

/// Decodes a call of a persistent connection.
pub fn decode_request(s: &[u8]) -> (r: Result<(u64, Envelope), Error>)
    ensures
        match r {
            Ok((t, e)) => unframe_request(s@) == Some((t, e.identity@, e.body@)),
            Err(x) => unframe_request(s@) is None && x == Error::Protocol,
        },
{
    if s.len() < 8 {
        return Err(Error::Protocol);
    }
    let token = get_be64(s, 0);
    match decode(Codec::Binary, vstd::slice::slice_subrange(s, 8, s.len())) {
        Ok(e) => Ok((token, e)),
        Err(x) => Err(x),
    }
}

/// Encodes the result of the call tagged `token`.
pub fn encode_response(token: u64, body: &[u8]) -> (r: Vec<u8>)
    ensures
        r@ == response_frame(token, body@),
{
    let mut v: Vec<u8> = Vec::new();
    push_be64(&mut v, token);
    push_range(&mut v, body, 0, body.len());
    assert(body@.subrange(0, body@.len() as int) =~= body@);
    v
}

/// Decodes a result of a persistent connection: fails exactly when it is
/// shorter than a token.
pub fn decode_response(s: &[u8]) -> (r: Result<(u64, Vec<u8>), Error>)
    ensures
        match r {
            Ok((t, b)) => unframe_response(s@) == Some((t, b@)),
            Err(x) => unframe_response(s@) is None && x == Error::Protocol,
        },
{
    if s.len() < 8 {
        return Err(Error::Protocol);
    }
    let token = get_be64(s, 0);
    let body = copy_range(s, 8, s.len());
    Ok((token, body))
}

} // verus!
