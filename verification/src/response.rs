//! Answers as plain values: a status code, the kind of the body and its
//! bytes, and the encoding of the texts and numbers that go into bodies.
use vstd::prelude::*;
use vstd::string::StrSliceExecFns;
use vstd::string::StringSliceAdditionalSpecFns;
use vstd::utf8::encode_utf8;
use crate::bytes::opt_bytes;
use crate::key::{encode_hash, hash_text};

verus! {

/// `rmp_serde::encode::Error`, the failure of the outside encoder. Nothing
/// is read from it.
#[verifier::external_type_specification]
#[verifier::external_body]
pub struct ExEncodeError(rmp_serde::encode::Error);

/// What the bytes of a body are, which decides the media type that they are
/// sent with.
#[derive(Clone, Copy, Debug, PartialEq, Eq, Structural)]
pub enum BodyKind {
    /// No body, and no media type.
    Empty,
    /// Text in UTF-8, sent as `text/plain; charset=utf-8`.
    Text,
    /// Bytes without a declared format, sent as `application/octet-stream`.
    Bytes,
    /// A binary envelope, sent as `application/msgpack`.
    MsgPack,
}

/// An answer to a request.
///
/// `expected` is set on the answer to an out-of-sync append only: it is the
/// sequence number and the previous-action hash that the batch should have
/// started with.
#[derive(Debug, PartialEq, Eq)]
pub struct Response {
    pub status: u16,
    pub kind: BodyKind,
    pub body: Vec<u8>,
    pub expected: Option<(u64, Option<Vec<u8>>)>,
}

/// The mathematical value of a [`Response`].
pub struct ResponseModel {
    pub status: u16,
    pub kind: BodyKind,
    pub body: Seq<u8>,
    pub expected: Option<(int, Option<Seq<u8>>)>,
}

impl View for Response {
    type V = ResponseModel;

    open spec fn view(&self) -> ResponseModel {
        ResponseModel {
            status: self.status,
            kind: self.kind,
            body: self.body@,
            expected: match self.expected {
                Some(link) => Some((link.0 as int, opt_bytes(link.1))),
                None => None,
            },
        }
    }
}

/// The binary envelope of a text whose UTF-8 form is `utf8`: a header that
/// holds the length, in the shortest of the four string formats that fits
/// it, and then the bytes.
pub open spec fn msgpack_str(utf8: Seq<u8>) -> Seq<u8> {
    let n = utf8.len();
    if n < 32 {
        seq![(0xa0 + n) as u8] + utf8
    } else if n < 256 {
        seq![0xd9u8, n as u8] + utf8
    } else if n < 65536 {
        seq![0xdau8, (n / 256) as u8, (n % 256) as u8] + utf8
    } else {
        seq![
            0xdbu8,
            (n / 16777216) as u8,
            (n / 65536 % 256) as u8,
            (n / 256 % 256) as u8,
            (n % 256) as u8,
        ] + utf8
    }
}

/// The binary envelope of an unsigned number: the number itself below 128,
/// and otherwise a format byte and the number in one, two or four bytes,
/// most significant first, whichever is the shortest that holds it.
pub open spec fn msgpack_uint(value: u32) -> Seq<u8> {
    if value < 128 {
        seq![value as u8]
    } else if value < 256 {
        seq![0xccu8, value as u8]
    } else if value < 65536 {
        seq![0xcdu8, (value / 256) as u8, (value % 256) as u8]
    } else {
        seq![
            0xceu8,
            (value / 16777216) as u8,
            (value / 65536 % 256) as u8,
            (value / 256 % 256) as u8,
            (value % 256) as u8,
        ]
    }
}

/// `rmp_serde::to_vec` on a text. Where it returns bytes, they are the string
/// format of the binary envelope: the length header and the UTF-8 bytes. It
/// may fail instead, for want of memory. Texts of more than `u32::MAX` bytes
/// are left out: the outside function writes a wrong length for them.
#[verifier::external_body]
pub(crate) fn msgpack_of_text(text: &str) -> (r: Result<Vec<u8>, rmp_serde::encode::Error>)
    requires
        encode_utf8(text@).len() <= u32::MAX,
    ensures
        r matches Ok(bytes) ==> bytes@ == msgpack_str(encode_utf8(text@)),
{
    rmp_serde::to_vec(text)
}

/// `rmp_serde::to_vec` on a `u32`. Where it returns bytes, they are the
/// shortest unsigned format of the binary envelope that holds the number. It
/// may fail instead, for want of memory.
#[verifier::external_body]
pub(crate) fn msgpack_of_u32(value: u32) -> (r: Result<Vec<u8>, rmp_serde::encode::Error>)
    ensures
        r matches Ok(bytes) ==> bytes@ == msgpack_uint(value),
{
    rmp_serde::to_vec(&value)
}

/// One header field of an answer.
#[derive(Clone, Debug, PartialEq, Eq)]
pub struct Header {
    pub name: String,
    pub value: Vec<u8>,
}

/// The mathematical value of a [`Header`].
pub struct HeaderModel {
    pub name: Seq<char>,
    pub value: Seq<u8>,
}

impl View for Header {
    type V = HeaderModel;

    open spec fn view(&self) -> HeaderModel {
        HeaderModel { name: self.name@, value: self.value@ }
    }
}

/// The values of header fields, in order.
pub open spec fn header_models(headers: Seq<Header>) -> Seq<HeaderModel> {
    Seq::new(headers.len(), |i: int| headers[i]@)
}

/// The decimal digits of a number as ASCII, most significant first, without
/// leading zeros.
pub open spec fn decimal(n: nat) -> Seq<u8>
    decreases n,
{
    if n < 10 {
        seq![(0x30 + n) as u8]
    } else {
        decimal(n / 10).push((0x30 + n % 10) as u8)
    }
}

/// The media type that a body of a kind is sent with, if it has one.
pub open spec fn media_type_of(kind: BodyKind) -> Option<Seq<char>> {
    match kind {
        BodyKind::Empty => None,
        BodyKind::Text => Some("text/plain; charset=utf-8"@),
        BodyKind::Bytes => Some("application/octet-stream"@),
        BodyKind::MsgPack => Some("application/msgpack"@),
    }
}

/// The header fields of an answer: the media type of its body, if it has
/// one, and for an out-of-sync append the expected sequence number in
/// decimal and, unless a genesis record was expected, the text of the
/// expected previous-action hash.
pub open spec fn headers_of(answer: ResponseModel) -> Seq<HeaderModel> {
    let media = match media_type_of(answer.kind) {
        Some(text) => seq![HeaderModel { name: "content-type"@, value: encode_utf8(text) }],
        None => Seq::empty(),
    };
    let link = match answer.expected {
        Some((seq, prev)) => {
            let first = seq![
                HeaderModel { name: "x-chc-expected-seq"@, value: decimal(seq as nat) },
            ];
            match prev {
                Some(hash) => first.push(
                    HeaderModel {
                        name: "x-chc-expected-prev-action"@,
                        value: encode_utf8(hash_text(hash)),
                    },
                ),
                None => first,
            }
        },
        None => Seq::empty(),
    };
    media + link
}

/// The decimal digits of a number as ASCII.
pub fn decimal_bytes(n: u64) -> (r: Vec<u8>)
    ensures
        r@ == decimal(n as nat),
{
    let mut low_first: Vec<u8> = Vec::new();
    let mut rest: u64 = n;
    while rest >= 10
        invariant
            decimal(n as nat) == decimal(rest as nat) + low_first@.reverse(),
        decreases rest,
    {
        let digit: u8 = 0x30 + (rest % 10) as u8;
        proof {
            let before = low_first@;
            assert(before.push(digit).reverse() =~= seq![digit] + before.reverse());
            assert(decimal((rest / 10) as nat).push(digit) + before.reverse() =~= decimal(
                (rest / 10) as nat,
            ) + (seq![digit] + before.reverse()));
        }
        low_first.push(digit);
        rest = rest / 10;
    }
    let ghost tail = low_first@;
    low_first.push(0x30 + rest as u8);
    proof {
        assert(tail.push((0x30 + rest) as u8).reverse() =~= seq![(0x30 + rest) as u8]
            + tail.reverse());
    }
    let mut out: Vec<u8> = Vec::with_capacity(low_first.len());
    let mut i: usize = low_first.len();
    while i > 0
        invariant
            i <= low_first@.len(),
            out@ == low_first@.reverse().subrange(0, low_first@.len() - i),
        decreases i,
    {
        i -= 1;
        out.push(low_first[i]);
        assert(out@ =~= low_first@.reverse().subrange(0, low_first@.len() - i));
    }
    assert(out@ =~= low_first@.reverse());
    out
}

/// The text of the answer to a request that the service itself failed on.
pub open spec fn went_wrong_text() -> Seq<char> {
    "Something went wrong"@
}

/// The text of the answer to a request for a path that is no route.
pub open spec fn no_route_text() -> Seq<char> {
    "404 - Not Found"@
}

/// An answer without a body.
pub open spec fn empty_answer(status: u16) -> ResponseModel {
    ResponseModel { status, kind: BodyKind::Empty, body: Seq::empty(), expected: None }
}

/// An answer whose body is a text.
pub open spec fn text_answer(status: u16, text: Seq<char>) -> ResponseModel {
    ResponseModel { status, kind: BodyKind::Text, body: encode_utf8(text), expected: None }
}

/// An answer whose body is bytes of the given kind.
pub open spec fn bytes_answer(status: u16, kind: BodyKind, body: Seq<u8>) -> ResponseModel {
    ResponseModel { status, kind, body, expected: None }
}

/// The answer to a request that the service itself failed on: status 500 and
/// a text that gives nothing away.
pub open spec fn internal_error_answer() -> ResponseModel {
    text_answer(500, went_wrong_text())
}

impl Response {
    /// The answer to a request that succeeded and has nothing to say: status
    /// 200 and no body.
    pub fn ok_empty() -> (r: Response)
        ensures
            r@ == empty_answer(200),
    {
        Response { status: 200, kind: BodyKind::Empty, body: Vec::new(), expected: None }
    }

    /// An answer whose body is the given text.
    pub fn text(status: u16, text: &str) -> (r: Response)
        ensures
            r@ == text_answer(status, text@),
    {
        Response { status, kind: BodyKind::Text, body: text.as_bytes_vec(), expected: None }
    }

    /// An answer whose body is the given bytes.
    pub fn bytes(status: u16, kind: BodyKind, body: Vec<u8>) -> (r: Response)
        ensures
            r@ == bytes_answer(status, kind, body@),
    {
        Response { status, kind, body, expected: None }
    }

    /// The header fields that this answer is sent with.
    pub fn headers(&self) -> (r: Vec<Header>)
        ensures
            header_models(r@) == headers_of(self@),
    {
        let mut out: Vec<Header> = Vec::new();
        let media = match self.kind {
            BodyKind::Empty => None,
            BodyKind::Text => Some("text/plain; charset=utf-8"),
            BodyKind::Bytes => Some("application/octet-stream"),
            BodyKind::MsgPack => Some("application/msgpack"),
        };
        match media {
            Some(text) => {
                out.push(Header { name: "content-type".to_string(), value: text.as_bytes_vec() });
            },
            None => {},
        }
        match &self.expected {
            Some(link) => {
                out.push(
                    Header { name: "x-chc-expected-seq".to_string(), value: decimal_bytes(link.0) },
                );
                match &link.1 {
                    Some(hash) => {
                        out.push(
                            Header {
                                name: "x-chc-expected-prev-action".to_string(),
                                value: encode_hash(hash).as_str().as_bytes_vec(),
                            },
                        );
                    },
                    None => {},
                }
            },
            None => {},
        }
        assert(header_models(out@) =~= headers_of(self@));
        out
    }

    /// The answer to a request that the service itself failed on.
    pub fn internal_error() -> (r: Response)
        ensures
            r@ == internal_error_answer(),
    {
        Response::text(500, "Something went wrong")
    }
}

} // verus!
