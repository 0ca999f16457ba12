use arpy::calls::{Add, TestServer, TryMultiply};
use arpy::client::Connection;
use arpy::envelope::{
    decode, decode_request, decode_response, encode, encode_request, encode_response, Codec,
    Envelope,
};
use arpy::error::{flatten, Error, ErrorFrom};
use arpy::id::{derive_id, RpcId};
use arpy::mime::MimeType;
use arpy::server::{WebSocketHandler, WebSocketRouter};
use arpy::subscription::{deserialize_message, SubscriptionMessage};
use std::str::FromStr;

fn env(id: &str, body: &[u8]) -> Envelope {
    Envelope { identity: id.as_bytes().to_vec(), body: body.to_vec() }
}

fn test_server() -> WebSocketHandler<TestServer> {
    let router = WebSocketRouter::new()
        .handle(Add::ID, TestServer::Add)
        .unwrap()
        .handle(TryMultiply::ID, TestServer::TryMultiply)
        .unwrap();
    WebSocketHandler::new(router)
}

fn cbor<T: serde::Serialize>(v: &T) -> Vec<u8> {
    let mut out = Vec::new();
    ciborium::ser::into_writer(v, &mut out).unwrap();
    out
}

/// Answers one request frame of a persistent connection.
fn serve(server: &WebSocketHandler<TestServer>, request: &[u8]) -> Vec<u8> {
    server.answer(request).unwrap()
}

#[test]
fn mime_as_str() {
    assert_eq!(MimeType::Cbor.as_str(), "application/cbor");
    assert_eq!(MimeType::Json.as_str(), "application/json");
    assert_eq!(MimeType::XwwwFormUrlencoded.as_str(), "application/x-www-form-urlencoded");
}

#[test]
fn mime_from_str() {
    assert_eq!(MimeType::from_str("application/cbor"), Ok(MimeType::Cbor));
    assert_eq!(MimeType::from_str("application/json; charset=utf-8"), Ok(MimeType::Json));
    assert_eq!(
        MimeType::from_str("application/x-www-form-urlencoded"),
        Ok(MimeType::XwwwFormUrlencoded)
    );
    assert_eq!(MimeType::from_str("text/plain"), Err(()));
    assert_eq!(MimeType::from_str("application/cb"), Err(()));
    assert_eq!(MimeType::parse(""), None);
}

#[test]
fn codec_for_mime() {
    assert_eq!(Codec::for_mime(MimeType::Cbor), Some(Codec::Binary));
    assert_eq!(Codec::for_mime(MimeType::Json), Some(Codec::Text));
    assert_eq!(Codec::for_mime(MimeType::XwwwFormUrlencoded), None);
}

#[test]
fn binary_frame_layout() {
    let f = encode(Codec::Binary, &env("add", &[1, 2])).unwrap();
    assert_eq!(f, vec![0, 0, 0, 3, b'a', b'd', b'd', 1, 2]);
}

#[test]
fn text_frame_layout() {
    let f = encode(Codec::Text, &env("try-multiply", b"[3,4]")).unwrap();
    assert_eq!(f, b"try-multiply\n[3,4]".to_vec());
}

#[test]
fn round_trip_both_codecs() {
    for codec in [Codec::Binary, Codec::Text] {
        for body in [vec![], vec![10u8, 0, 255], b"\n\nx".to_vec()] {
            let e = env("try-multiply", &body);
            let back = decode(codec, &encode(codec, &e).unwrap()).unwrap();
            assert_eq!(back.identity, e.identity);
            assert_eq!(back.body, e.body);
        }
    }
}

#[test]
fn encode_rejects_invalid_identity() {
    for id in ["", "Add", "a b", "x\n"] {
        assert_eq!(encode(Codec::Binary, &env(id, &[])).unwrap_err(), Error::InvalidIdentity);
        assert_eq!(encode(Codec::Text, &env(id, &[])).unwrap_err(), Error::InvalidIdentity);
    }
}

#[test]
fn decode_rejects_malformed() {
    assert_eq!(decode(Codec::Binary, &[]).unwrap_err(), Error::Protocol);
    assert_eq!(decode(Codec::Binary, &[0, 0, 0]).unwrap_err(), Error::Protocol);
    assert_eq!(decode(Codec::Binary, &[0, 0, 0, 0, 1]).unwrap_err(), Error::Protocol);
    assert_eq!(decode(Codec::Binary, &[0, 0, 0, 5, b'a']).unwrap_err(), Error::Protocol);
    assert_eq!(decode(Codec::Binary, &[0, 0, 0, 1, b'A']).unwrap_err(), Error::Protocol);
    assert_eq!(decode(Codec::Text, b"add").unwrap_err(), Error::Protocol);
    assert_eq!(decode(Codec::Text, b"\nbody").unwrap_err(), Error::Protocol);
    assert_eq!(decode(Codec::Text, b"Add\nbody").unwrap_err(), Error::Protocol);
}

#[test]
fn tagged_frames_round_trip() {
    let e = env("add", &[7, 8]);
    let q = encode_request(0x0102030405060708, &e).unwrap();
    assert_eq!(&q[..8], &[1, 2, 3, 4, 5, 6, 7, 8]);
    let (t, back) = decode_request(&q).unwrap();
    assert_eq!(t, 0x0102030405060708);
    assert_eq!(back.identity, e.identity);
    assert_eq!(back.body, e.body);
    let p = encode_response(u64::MAX, &[9]);
    assert_eq!(decode_response(&p).unwrap(), (u64::MAX, vec![9]));
    assert_eq!(decode_response(&[1, 2, 3]).unwrap_err(), Error::Protocol);
    assert_eq!(decode_request(&[0; 8]).unwrap_err(), Error::Protocol);
}

#[test]
fn derived_identities() {
    assert_eq!(derive_id("Add"), b"add".to_vec());
    assert_eq!(derive_id("TryMultiply"), b"try-multiply".to_vec());
    assert_eq!(derive_id("calls::TryMultiply<T>"), b"try-multiply".to_vec());
    assert_eq!(derive_id("my_crate::Http2Call<A, B::C>"), b"http2-call".to_vec());
    assert_eq!(derive_id("snake_name"), b"snake-name".to_vec());
    assert_eq!(derive_id(Add::ID), Add::ID.as_bytes().to_vec());
    assert_ne!(derive_id("Add"), derive_id("TryMultiply"));
}

#[test]
fn duplicate_registration_fails() {
    let router = WebSocketRouter::new().handle("add", TestServer::Add).unwrap();
    assert_eq!(router.handle("add", TestServer::TryMultiply).err(), Some(Error::DuplicateId));
    let router = WebSocketRouter::new().handle("add", TestServer::Add).unwrap();
    assert_eq!(router.handle("Add", TestServer::Add).err(), Some(Error::InvalidIdentity));
}

#[test]
fn dispatch_runs_the_registered_function() {
    let server = test_server();
    let f = encode(Codec::Binary, &Add(1, 2).envelope()).unwrap();
    let out = server.handle_msg(&f).unwrap();
    assert_eq!(out, cbor(&3i32));
    assert_eq!(Add::output(&out), Ok(3));
    let f = encode(Codec::Text, &TryMultiply(3, 4).envelope()).unwrap();
    let out = server.dispatch(Codec::Text, &f).unwrap();
    assert_eq!(TryMultiply::output(&out), Ok(Ok(12)));
}

#[test]
fn dispatch_wraps_and_fails_in_the_payload() {
    let server = test_server();
    let f = encode(Codec::Binary, &Add(i32::MAX, 1).envelope()).unwrap();
    assert_eq!(Add::output(&server.handle_msg(&f).unwrap()), Ok(i32::MIN));
    let f = encode(Codec::Binary, &TryMultiply(i32::MAX, 2).envelope()).unwrap();
    assert_eq!(TryMultiply::output(&server.handle_msg(&f).unwrap()), Ok(Err(())));
}

#[test]
fn dispatch_unknown_identity() {
    let server = test_server();
    let f = encode(Codec::Binary, &env("subtract", &cbor(&(1i32, 2i32)))).unwrap();
    assert_eq!(server.handle_msg(&f), Err(Error::FunctionNotFound));
}

#[test]
fn dispatch_malformed_payload() {
    let server = test_server();
    let f = encode(Codec::Binary, &env("add", &cbor(&"text"))).unwrap();
    assert_eq!(server.handle_msg(&f), Err(Error::Deserialization));
    assert_eq!(server.handle_msg(&[0, 0]), Err(Error::Protocol));
}

#[test]
fn out_of_order_correlation() {
    let server = test_server();
    let mut conn = Connection::new();
    let (ta, qa) = conn.begin_call(&Add(1, 2).envelope()).unwrap();
    let (tb, qb) = conn.begin_call(&TryMultiply(3, 4).envelope()).unwrap();
    assert_eq!((ta, tb), (1, 2));
    assert_eq!(conn.outstanding(), 2);
    let ra = serve(&server, &qa);
    let rb = serve(&server, &qb);
    assert_eq!(conn.receive(&rb), Ok(2));
    assert_eq!(conn.poll(ta), None);
    let b = conn.poll(tb).unwrap();
    assert_eq!(TryMultiply::try_finish(b), Ok(12));
    assert_eq!(conn.poll(ta), None);
    assert_eq!(conn.receive(&ra), Ok(1));
    let a = conn.poll(ta).unwrap();
    assert_eq!(Add::finish(a), Ok(3));
    assert_eq!(conn.outstanding(), 0);
}

#[test]
fn duplicate_and_stray_responses_are_refused() {
    let mut conn = Connection::new();
    let (t, _) = conn.begin_call(&Add(1, 2).envelope()).unwrap();
    assert_eq!(conn.receive(&encode_response(t, &cbor(&3i32))), Ok(t));
    assert_eq!(conn.receive(&encode_response(t, &cbor(&4i32))), Err(Error::UnknownToken));
    assert_eq!(conn.receive(&encode_response(99, &[])), Err(Error::UnknownToken));
    assert_eq!(conn.receive(&[1]), Err(Error::Protocol));
    assert_eq!(Add::finish(conn.poll(t).unwrap()), Ok(3));
    assert_eq!(conn.poll(t), Some(Err(Error::UnknownToken)));
}

#[test]
fn fallible_call_flattening() {
    let server = test_server();
    let mut conn = Connection::new();
    let (t, q) = conn.begin_call(&TryMultiply(i32::MAX, 2).envelope()).unwrap();
    conn.receive(&serve(&server, &q)).unwrap();
    assert_eq!(TryMultiply::try_finish(conn.poll(t).unwrap()), Err(ErrorFrom::Server(())));
    let (t, _) = conn.begin_call(&TryMultiply(3, 4).envelope()).unwrap();
    conn.close();
    assert_eq!(
        TryMultiply::try_finish(conn.poll(t).unwrap()),
        Err(ErrorFrom::Connection(Error::ConnectionClosed))
    );
    assert_eq!(
        TryMultiply::try_finish(Ok(vec![0xff])),
        Err(ErrorFrom::Connection(Error::Deserialization))
    );
}

#[test]
fn flatten_keeps_sides_apart() {
    let ok: Result<Result<i32, &str>, u8> = Ok(Ok(1));
    assert_eq!(flatten(ok), Ok(1));
    let server: Result<Result<i32, &str>, u8> = Ok(Err("no"));
    assert_eq!(flatten(server), Err(ErrorFrom::Server("no")));
    let conn: Result<Result<i32, &str>, u8> = Err(7);
    assert_eq!(flatten(conn), Err(ErrorFrom::Connection(7)));
}

#[test]
fn connection_loss_drains_pending_calls() {
    let mut conn = Connection::new();
    let mut tokens = Vec::new();
    for i in 0..3 {
        tokens.push(conn.begin_call(&Add(i, i).envelope()).unwrap().0);
    }
    assert_eq!(conn.outstanding(), 3);
    conn.close();
    assert_eq!(conn.outstanding(), 0);
    for t in tokens {
        assert_eq!(conn.poll(t), Some(Err(Error::ConnectionClosed)));
    }
    assert_eq!(conn.begin_call(&Add(1, 1).envelope()).err(), Some(Error::ConnectionClosed));
    assert_eq!(conn.poll(50), Some(Err(Error::UnknownToken)));
}

#[test]
fn abandoned_call_releases_its_slot() {
    let mut conn = Connection::new();
    let (t, _) = conn.begin_call(&Add(1, 2).envelope()).unwrap();
    conn.abandon(t);
    assert_eq!(conn.outstanding(), 0);
    assert_eq!(conn.receive(&encode_response(t, &cbor(&3i32))), Err(Error::UnknownToken));
}

#[test]
fn subscription_liveness() {
    let mut sub = SubscriptionMessage::new(b"counter".to_vec());
    assert_eq!(sub.topic(), &b"counter".to_vec());
    for v in 5..30 {
        sub.push(Some(&v.to_string()));
    }
    let items: Vec<i32> = sub.take(10).into_iter().map(Result::unwrap).collect();
    assert_eq!(items, (5..15).collect::<Vec<i32>>());
    assert_eq!(sub.next(), Some(Ok(15)));
}

#[test]
fn subscription_keeps_going_after_a_bad_item() {
    let mut sub = SubscriptionMessage::new(b"counter".to_vec());
    assert_eq!(sub.next(), None);
    sub.push(Some("1"));
    sub.push(Some("not json"));
    sub.push(None);
    sub.push(Some("2"));
    assert_eq!(
        sub.take(10),
        vec![Ok(1), Err(Error::Deserialization), Err(Error::Deserialization), Ok(2)]
    );
    assert_eq!(sub.take(10), vec![]);
}

#[test]
fn message_data_decodes_as_json() {
    assert_eq!(deserialize_message(Some(" 42 ")), Ok(42));
    assert_eq!(deserialize_message(Some("-7")), Ok(-7));
    assert_eq!(deserialize_message(Some("\"42\"")), Err(Error::Deserialization));
    assert_eq!(deserialize_message(None), Err(Error::Deserialization));
}

#[test]
fn answer_tags_the_result_with_the_call_token() {
    let server = test_server();
    let q = encode_request(41, &Add(20, 22).envelope()).unwrap();
    let (token, e) = decode_request(&q).unwrap();
    let body = server.handle_msg(&encode(Codec::Binary, &e).unwrap()).unwrap();
    let answer = server.answer(&q).unwrap();
    assert_eq!(answer, encode_response(token, &body));
    assert_eq!(decode_response(&answer).unwrap(), (41, cbor(&42i32)));
    assert_eq!(server.answer(&[0; 7]), Err(Error::Protocol));
    let q = encode_request(1, &env("nothing", &[])).unwrap();
    assert_eq!(server.answer(&q), Err(Error::FunctionNotFound));
}
