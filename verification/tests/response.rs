use chc_service::error::{e409, e498};
use chc_service::msgpack_utils::encoding_failed;
use chc_service::response::decimal_bytes;
use chc_service::{
    append_answer, read_answer, BodyKind, ChcServiceError, Header, MsgPack, Response,
};

fn internal() -> Response {
    Response {
        status: 500,
        kind: BodyKind::Text,
        body: b"Something went wrong".to_vec(),
        expected: None,
    }
}

#[test]
fn not_found_is_498_with_the_encoded_message() {
    let answer = ChcServiceError::HashNotFound("abc".to_string()).into_response();
    assert_eq!(
        answer,
        Response {
            status: 498,
            kind: BodyKind::Bytes,
            body: vec![0xa3, b'a', b'b', b'c'],
            expected: None
        }
    );
    let message = "Hash was not found in the CHC";
    let answer = ChcServiceError::HashNotFound(message.to_string()).into_response();
    assert_eq!(answer.status, 498);
    assert_eq!(answer.body[0], 0xa0 + 29);
    assert_eq!(&answer.body[1..], message.as_bytes());
    assert_eq!(answer.body, rmp_serde::to_vec(message).unwrap());
}

#[test]
fn message_lengths_pick_the_string_format() {
    let body = |n: usize| ChcServiceError::HashNotFound("x".repeat(n)).into_response().body;
    assert_eq!(body(0), vec![0xa0]);
    assert_eq!(body(31)[..1], [0xbf]);
    assert_eq!(body(32)[..2], [0xd9, 32]);
    assert_eq!(body(255)[..2], [0xd9, 255]);
    assert_eq!(body(256)[..3], [0xda, 1, 0]);
    assert_eq!(body(65535)[..3], [0xda, 255, 255]);
    assert_eq!(body(65536)[..5], [0xdb, 0, 1, 0, 0]);
    assert_eq!(body(65536).len(), 65536 + 5);
    let wide = ChcServiceError::HashNotFound("\u{e9}".repeat(16)).into_response().body;
    assert_eq!(wide[..2], [0xd9, 32]);
}

#[test]
fn invalid_record_input_is_498_with_the_encoded_number() {
    let body = |n: u32| ChcServiceError::InvalidRecordInput(n).into_response().body;
    assert_eq!(body(0), vec![0]);
    assert_eq!(body(5), vec![5]);
    assert_eq!(body(127), vec![127]);
    assert_eq!(body(128), vec![0xcc, 128]);
    assert_eq!(body(255), vec![0xcc, 255]);
    assert_eq!(body(300), vec![0xcd, 0x01, 0x2c]);
    assert_eq!(body(65535), vec![0xcd, 0xff, 0xff]);
    assert_eq!(body(70000), vec![0xce, 0x00, 0x01, 0x11, 0x70]);
    assert_eq!(body(u32::MAX), vec![0xce, 0xff, 0xff, 0xff, 0xff]);
    let answer = ChcServiceError::InvalidRecordInput(300).into_response();
    assert_eq!(answer.status, 498);
    assert_eq!(answer.kind, BodyKind::Bytes);
}

#[test]
fn bad_request_is_400_with_the_cause() {
    let answer = ChcServiceError::BadRequest("no such field".to_string()).into_response();
    assert_eq!(
        answer,
        Response {
            status: 400,
            kind: BodyKind::Text,
            body: b"Bad request error: no such field".to_vec(),
            expected: None
        }
    );
    let answer = ChcServiceError::BadRequest(String::new()).into_response();
    assert_eq!(answer.body, b"Bad request error: ".to_vec());
}

#[test]
fn internal_error_is_500_and_tells_nothing() {
    let answer = ChcServiceError::InternalError("disk on fire".to_string()).into_response();
    assert_eq!(answer, internal());
}

#[test]
fn out_of_sync_is_409_with_the_expected_link() {
    let answer = ChcServiceError::InvalidChain(3, Some(vec![1, 2, 3])).into_response();
    assert_eq!(answer.status, 409);
    assert_eq!(answer.kind, BodyKind::Bytes);
    assert_eq!(answer.body[..2], [0xd9, 39]);
    assert_eq!(&answer.body[2..], b"Local chain is out of sync with the CHC");
    assert_eq!(answer.expected, Some((3, Some(vec![1, 2, 3]))));
    let answer = ChcServiceError::InvalidChain(0, None).into_response();
    assert_eq!(answer.status, 409);
    assert_eq!(answer.expected, Some((0, None)));
    assert_eq!(
        answer.body,
        rmp_serde::to_vec("Local chain is out of sync with the CHC").unwrap()
    );
}

#[test]
fn answers_around_an_encoded_body() {
    assert_eq!(
        e498(Ok(vec![1, 2])),
        Response { status: 498, kind: BodyKind::Bytes, body: vec![1, 2], expected: None }
    );
    assert_eq!(e498(Err(rmp_serde::encode::Error::UnknownLength)), internal());
    assert_eq!(
        e409(Ok(vec![9]), 4, None),
        Response { status: 409, kind: BodyKind::Bytes, body: vec![9], expected: Some((4, None)) }
    );
    assert_eq!(e409(Err(rmp_serde::encode::Error::DepthLimitExceeded), 4, None), internal());
}

#[test]
fn envelope_answer_is_200_and_declared_as_envelope() {
    let answer = MsgPack(vec![0x90]).into_response();
    assert_eq!(
        answer,
        Response { status: 200, kind: BodyKind::MsgPack, body: vec![0x90], expected: None }
    );
    assert_eq!(
        encoding_failed("depth limit exceeded"),
        Response {
            status: 500,
            kind: BodyKind::Text,
            body: b"depth limit exceeded".to_vec(),
            expected: None
        }
    );
}

#[test]
fn plain_answers() {
    assert_eq!(
        Response::ok_empty(),
        Response { status: 200, kind: BodyKind::Empty, body: vec![], expected: None }
    );
    assert_eq!(Response::internal_error(), internal());
    assert_eq!(Response::text(404, "nope").body, b"nope".to_vec());
    assert_eq!(Response::bytes(200, BodyKind::Bytes, vec![1]).kind, BodyKind::Bytes);
}

fn header(name: &str, value: &str) -> Header {
    Header { name: name.to_string(), value: value.as_bytes().to_vec() }
}

#[test]
fn decimal_digits() {
    assert_eq!(decimal_bytes(0), b"0".to_vec());
    assert_eq!(decimal_bytes(7), b"7".to_vec());
    assert_eq!(decimal_bytes(10), b"10".to_vec());
    assert_eq!(decimal_bytes(409), b"409".to_vec());
    assert_eq!(decimal_bytes(4294967296), b"4294967296".to_vec());
    assert_eq!(decimal_bytes(u64::MAX), b"18446744073709551615".to_vec());
}

#[test]
fn media_type_follows_the_kind_of_body() {
    assert_eq!(Response::ok_empty().headers(), vec![]);
    assert_eq!(
        Response::text(404, "x").headers(),
        vec![header("content-type", "text/plain; charset=utf-8")]
    );
    assert_eq!(
        Response::bytes(498, BodyKind::Bytes, vec![1]).headers(),
        vec![header("content-type", "application/octet-stream")]
    );
    assert_eq!(
        MsgPack(vec![0x90]).into_response().headers(),
        vec![header("content-type", "application/msgpack")]
    );
}

#[test]
fn expected_link_is_sent_in_header_fields() {
    let core = vec![9u8; 32];
    let mut raw = vec![0x84, 0x29, 0x24];
    raw.extend(core.clone());
    raw.extend(holo_hash::encode::holo_dht_location_bytes(&core));
    let text = holo_hash::holo_hash_encode(&raw);
    let answer = ChcServiceError::InvalidChain(3, Some(raw)).into_response();
    assert_eq!(
        answer.headers(),
        vec![
            header("content-type", "application/octet-stream"),
            header("x-chc-expected-seq", "3"),
            header("x-chc-expected-prev-action", &text),
        ]
    );
    assert!(text.starts_with("uhCkk"));
    let answer = ChcServiceError::InvalidChain(0, None).into_response();
    assert_eq!(
        answer.headers(),
        vec![
            header("content-type", "application/octet-stream"),
            header("x-chc-expected-seq", "0"),
        ]
    );
}

#[test]
fn answers_to_append_and_read() {
    assert_eq!(append_answer(Ok(())), Response::ok_empty());
    assert_eq!(
        append_answer(Err(ChcServiceError::InvalidChain(0, None))).status,
        409
    );
    assert_eq!(append_answer(Err(ChcServiceError::BadRequest(String::new()))).status, 400);
    assert_eq!(
        read_answer(Ok(MsgPack(vec![0x90]))),
        Response { status: 200, kind: BodyKind::MsgPack, body: vec![0x90], expected: None }
    );
    assert_eq!(read_answer(Err(ChcServiceError::HashNotFound("x".to_string()))).status, 498);
    assert_eq!(read_answer(Err(ChcServiceError::InternalError("x".to_string()))), internal());
}
