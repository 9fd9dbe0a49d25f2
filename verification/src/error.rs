//! The failures of the catalog and their mathematical values.
use vstd::prelude::*;
use vstd::string::StrSliceExecFns;
use vstd::string::StringSliceAdditionalSpecFns;
use vstd::utf8::encode_utf8;
use crate::bytes::opt_bytes;
use crate::response::{
    bytes_answer, internal_error_answer, msgpack_of_text, msgpack_of_u32, msgpack_str,
    msgpack_uint, BodyKind, Response, ResponseModel,
};

verus! {

/// What a request can fail with.
#[derive(Clone, Debug, PartialEq, Eq)]
pub enum ChcServiceError {
    /// The chain, or the anchor hash in it, is not there. The text is the
    /// message for the caller.
    HashNotFound(String),
    /// The caller's input is broken. The text says what is wrong with it.
    BadRequest(String),
    /// A record input is not acceptable; the number is its sequence number.
    InvalidRecordInput(u32),
    /// The batch does not continue the chain. The fields are the sequence
    /// number and the previous-action hash that were expected at the point
    /// where the batch went wrong.
    InvalidChain(u64, Option<Vec<u8>>),
    /// Something failed that the caller is not to blame for. The text is for
    /// the operator's log.
    InternalError(String),
}

/// The mathematical value of a [`ChcServiceError`].
pub enum ErrorModel {
    HashNotFound(Seq<char>),
    BadRequest(Seq<char>),
    InvalidRecordInput(u32),
    InvalidChain(int, Option<Seq<u8>>),
    InternalError(Seq<char>),
}

impl View for ChcServiceError {
    type V = ErrorModel;

    open spec fn view(&self) -> ErrorModel {
        match *self {
            ChcServiceError::HashNotFound(text) => ErrorModel::HashNotFound(text@),
            ChcServiceError::BadRequest(text) => ErrorModel::BadRequest(text@),
            ChcServiceError::InvalidRecordInput(seq) => ErrorModel::InvalidRecordInput(seq),
            ChcServiceError::InvalidChain(seq, prev) => ErrorModel::InvalidChain(
                seq as int,
                opt_bytes(prev),
            ),
            ChcServiceError::InternalError(text) => ErrorModel::InternalError(text@),
        }
    }
}


/// The text that the body of the answer to a bad request begins with.
pub open spec fn bad_request_lead() -> Seq<char> {
    "Bad request error: "@
}

/// The text in the body of the answer to an append that is out of sync.
pub open spec fn out_of_sync_text() -> Seq<char> {
    "Local chain is out of sync with the CHC"@
}

/// The answer to a bad request: status 400 and a text that names the cause.
pub open spec fn bad_request_answer(cause: Seq<char>) -> ResponseModel {
    ResponseModel {
        status: 400,
        kind: BodyKind::Text,
        body: encode_utf8(bad_request_lead()) + encode_utf8(cause),
        expected: None,
    }
}

/// The answer to an append that is out of sync: status 409, the encoded
/// message, and the link that was expected.
pub open spec fn out_of_sync_answer(seq: int, prev: Option<Seq<u8>>) -> ResponseModel {
    ResponseModel {
        status: 409,
        kind: BodyKind::Bytes,
        body: msgpack_str(encode_utf8(out_of_sync_text())),
        expected: Some((seq, prev)),
    }
}

/// The answer that a failure is meant to get, where its body can be
/// encoded: 498 with the encoded message or number for what is not found or
/// not acceptable, 400 with the cause for a bad request, 409 for an append
/// that is out of sync, and 500 with a fixed text for an internal error.
pub open spec fn answer_of(e: ErrorModel) -> ResponseModel {
    match e {
        ErrorModel::HashNotFound(text) => bytes_answer(
            498,
            BodyKind::Bytes,
            msgpack_str(encode_utf8(text)),
        ),
        ErrorModel::BadRequest(text) => bad_request_answer(text),
        ErrorModel::InvalidRecordInput(seq) => bytes_answer(
            498,
            BodyKind::Bytes,
            msgpack_uint(seq),
        ),
        ErrorModel::InvalidChain(seq, prev) => out_of_sync_answer(seq, prev),
        ErrorModel::InternalError(_) => internal_error_answer(),
    }
}

/// `answer` is an answer that `e` may be sent as. A bad request and an
/// internal error are sent as [`answer_of`] says. The other failures have an
/// encoded body: they are sent as [`answer_of`] says where the body can be
/// encoded, and as an internal error where the encoder fails or, for a
/// message of more than `u32::MAX` bytes, cannot be asked.
pub open spec fn answers(e: ErrorModel, answer: ResponseModel) -> bool {
    match e {
        ErrorModel::BadRequest(_) => answer == answer_of(e),
        ErrorModel::InternalError(_) => answer == answer_of(e),
        ErrorModel::HashNotFound(text) => answer == internal_error_answer() || (encode_utf8(
            text,
        ).len() <= u32::MAX && answer == answer_of(e)),
        _ => answer == internal_error_answer() || answer == answer_of(e),
    }
}

/// The status of the answer that each failure is meant to get: 498 for what
/// is not found or not acceptable, 400 for a bad request, 409 for an append
/// that is out of sync, 500 for an internal error. Only the answer to an
/// out-of-sync append names an expected link, and it names the one that the
/// failure carries.
pub proof fn law_status_of_failure(e: ErrorModel)
    ensures
        answer_of(e).status == (match e {
            ErrorModel::HashNotFound(_) => 498u16,
            ErrorModel::BadRequest(_) => 400u16,
            ErrorModel::InvalidRecordInput(_) => 498u16,
            ErrorModel::InvalidChain(_, _) => 409u16,
            ErrorModel::InternalError(_) => 500u16,
        }),
        answer_of(e).expected == (match e {
            ErrorModel::InvalidChain(seq, prev) => Some((seq, prev)),
            _ => None,
        }),
{
}

/// The UTF-8 form of a text has at most four bytes for each character.
pub proof fn lemma_utf8_len(text: Seq<char>)
    ensures
        encode_utf8(text).len() <= 4 * text.len(),
    decreases text.len(),
{
    if text.len() > 0 {
        lemma_utf8_len(text.drop_first());
    }
}

/// The answer with status 498 around an encoded body, or the answer to an
/// internal error where the body could not be encoded.
pub fn e498(encoded: Result<Vec<u8>, rmp_serde::encode::Error>) -> (r: Response)
    ensures
        match encoded {
            Ok(body) => r@ == bytes_answer(498, BodyKind::Bytes, body@),
            Err(_) => r@ == internal_error_answer(),
        },
{
    match encoded {
        Ok(body) => Response::bytes(498, BodyKind::Bytes, body),
        Err(_) => Response::internal_error(),
    }
}

/// The answer with status 409 around the encoded message, with the link
/// that was expected, or the answer to an internal error where the message
/// could not be encoded.
pub fn e409(
    encoded: Result<Vec<u8>, rmp_serde::encode::Error>,
    expected_seq: u64,
    expected_prev: Option<Vec<u8>>,
) -> (r: Response)
    ensures
        match encoded {
            Ok(body) => r@ == (ResponseModel {
                status: 409,
                kind: BodyKind::Bytes,
                body: body@,
                expected: Some((expected_seq as int, opt_bytes(expected_prev))),
            }),
            Err(_) => r@ == internal_error_answer(),
        },
{
    match encoded {
        Ok(body) => Response {
            status: 409,
            kind: BodyKind::Bytes,
            body,
            expected: Some((expected_seq, expected_prev)),
        },
        Err(_) => Response::internal_error(),
    }
}

impl ChcServiceError {
    /// The answer that this failure is sent as.
    pub fn into_response(self) -> (r: Response)
        ensures
            answers(self@, r@),
    {
        match self {
            ChcServiceError::HashNotFound(message) => {
                if message.as_str().as_bytes().len() > 0xffff_ffff {
                    Response::internal_error()
                } else {
                    e498(msgpack_of_text(message.as_str()))
                }
            },
            ChcServiceError::BadRequest(body_text) => {
                let mut body = "Bad request error: ".as_bytes_vec();
                let mut cause = body_text.as_str().as_bytes_vec();
                body.append(&mut cause);
                Response { status: 400, kind: BodyKind::Text, body, expected: None }
            },
            ChcServiceError::InvalidRecordInput(seq) => e498(msgpack_of_u32(seq)),
            ChcServiceError::InvalidChain(expected_seq, expected_prev) => {
                let text = "Local chain is out of sync with the CHC";
                proof {
                    reveal_strlit("Local chain is out of sync with the CHC");
                    lemma_utf8_len(text@);
                }
                e409(msgpack_of_text(text), expected_seq, expected_prev)
            },
            ChcServiceError::InternalError(_) => Response::internal_error(),
        }
    }
}

} // verus!
