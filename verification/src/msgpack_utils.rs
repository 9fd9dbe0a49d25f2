//! The binary envelope at the boundary: which declared media types are
//! taken as one, and the answer that carries one.
use vstd::prelude::*;
use vstd::slice::slice_subrange;
use vstd::string::StringSliceAdditionalSpecFns;
use vstd::utf8::encode_utf8;
use crate::error::{answer_of, ChcServiceError, ErrorModel};
use crate::response::{bytes_answer, text_answer, BodyKind, Response};

verus! {

/// A value that travels in a binary envelope.
#[derive(Debug)]
pub struct MsgPack<T>(pub T);

/// A space or a tab.
pub open spec fn is_blank(b: u8) -> bool {
    b == 0x20 || b == 0x09
}

/// The bytes of a media type up to its first `;`, which is where its
/// parameters begin; all of it where it has none.
pub open spec fn before_params(s: Seq<u8>) -> Seq<u8>
    decreases s.len(),
{
    if s.len() == 0 || s[0] == 0x3b {
        Seq::empty()
    } else {
        seq![s[0]] + before_params(s.drop_first())
    }
}

/// `s` without the blanks that it begins with.
pub open spec fn trim_front(s: Seq<u8>) -> Seq<u8>
    decreases s.len(),
{
    if s.len() > 0 && is_blank(s[0]) {
        trim_front(s.drop_first())
    } else {
        s
    }
}

/// `s` without the blanks that it ends with.
pub open spec fn trim_back(s: Seq<u8>) -> Seq<u8>
    decreases s.len(),
{
    if s.len() > 0 && is_blank(s.last()) {
        trim_back(s.drop_last())
    } else {
        s
    }
}

/// The type and subtype of a media type: what stands before its parameters,
/// without blanks around it.
pub open spec fn essence(s: Seq<u8>) -> Seq<u8> {
    trim_back(trim_front(before_params(s)))
}

/// `s` begins with `lead`.
pub open spec fn starts_with(s: Seq<u8>, lead: Seq<u8>) -> bool {
    lead.len() <= s.len() && s.subrange(0, lead.len() as int) == lead
}

/// `s` ends with `tail`.
pub open spec fn ends_with(s: Seq<u8>, tail: Seq<u8>) -> bool {
    tail.len() <= s.len() && s.subrange(s.len() - tail.len(), s.len() as int) == tail
}

/// `s` is `application/`, a vendor name of at least one byte, and `tail`.
pub open spec fn is_vendor_form(s: Seq<u8>, tail: Seq<u8>) -> bool {
    let lead = encode_utf8("application/"@);
    starts_with(s, lead) && ends_with(s, tail) && s.len() > lead.len() + tail.len()
}

/// The types that are taken as a binary envelope: `application/msgpack`,
/// `application/x-msgpack`, and `application/` with a vendor name before
/// `+msgpack` or `+x-msgpack`.
pub open spec fn is_msgpack_essence(s: Seq<u8>) -> bool {
    ||| s == encode_utf8("application/msgpack"@)
    ||| s == encode_utf8("application/x-msgpack"@)
    ||| is_vendor_form(s, encode_utf8("+msgpack"@))
    ||| is_vendor_form(s, encode_utf8("+x-msgpack"@))
}

/// Whether a declared media type, given as its bytes, is taken as a binary
/// envelope. Its parameters and the blanks around its type are not looked
/// at; its letters count as they are written.
pub open spec fn accepts_media_type(s: Seq<u8>) -> bool {
    is_msgpack_essence(essence(s))
}

/// The text of the failure for a request that does not declare a binary
/// envelope.
pub open spec fn wrong_media_text() -> Seq<char> {
    "Expected request with `Content-Type: application/msgpack`"@
}

/// The body that is taken from a request, or the failure: the body as it
/// is where the request declares a binary envelope, and a bad request where
/// it declares nothing or something else.
pub open spec fn taken_body(declared: Option<Seq<char>>, body: Seq<u8>) -> Result<
    Seq<u8>,
    ErrorModel,
> {
    match declared {
        Some(text) => if accepts_media_type(encode_utf8(text)) {
            Ok(body)
        } else {
            Err(ErrorModel::BadRequest(wrong_media_text()))
        },
        None => Err(ErrorModel::BadRequest(wrong_media_text())),
    }
}

/// Whether two byte strings hold the same bytes.
fn same_bytes(a: &[u8], b: &[u8]) -> (r: bool)
    ensures
        r == (a@ == b@),
{
    if a.len() != b.len() {
        return false;
    }
    let mut i: usize = 0;
    while i < a.len()
        invariant
            i <= a.len(),
            a.len() == b.len(),
            forall|j: int| 0 <= j < i ==> a@[j] == b@[j],
        decreases a.len() - i,
    {
        if a[i] != b[i] {
            return false;
        }
        i += 1;
    }
    assert(a@ =~= b@);
    true
}

/// Whether `s` begins with `lead`.
fn begins_with(s: &[u8], lead: &[u8]) -> (r: bool)
    ensures
        r == starts_with(s@, lead@),
{
    lead.len() <= s.len() && same_bytes(slice_subrange(s, 0, lead.len()), lead)
}

/// Whether `s` is `application/`, a vendor name and `tail`.
fn has_vendor_form(s: &[u8], tail: &[u8]) -> (r: bool)
    ensures
        r == is_vendor_form(s@, tail@),
{
    let lead = "application/".as_bytes();
    if tail.len() > s.len() || lead.len() >= s.len() - tail.len() {
        return false;
    }
    begins_with(s, lead) && same_bytes(slice_subrange(s, s.len() - tail.len(), s.len()), tail)
}

/// Whether a declared media type is taken as a binary envelope.
pub fn is_msgpack_media_type(content_type: &str) -> (r: bool)
    ensures
        r == accepts_media_type(encode_utf8(content_type@)),
{
    let s = content_type.as_bytes();
    let n: usize = s.len();
    let mut p: usize = 0;
    proof {
        assert(s@.subrange(0, 0) =~= Seq::<u8>::empty());
        assert(s@.subrange(0, n as int) =~= s@);
    }
    while p < n && s[p] != 0x3b
        invariant
            p <= n,
            n == s@.len(),
            before_params(s@) == s@.subrange(0, p as int) + before_params(
                s@.subrange(p as int, n as int),
            ),
        decreases n - p,
    {
        proof {
            let rest = s@.subrange(p as int, n as int);
            assert(rest.drop_first() =~= s@.subrange(p + 1, n as int));
            assert(s@.subrange(0, p as int) + seq![rest[0]] =~= s@.subrange(0, p + 1));
            assert(s@.subrange(0, p as int) + (seq![rest[0]] + before_params(rest.drop_first()))
                =~= s@.subrange(0, p as int) + seq![rest[0]] + before_params(rest.drop_first()));
        }
        p += 1;
    }
    proof {
        let rest = s@.subrange(p as int, n as int);
        assert(before_params(rest) =~= Seq::<u8>::empty());
        assert(s@.subrange(0, p as int) + Seq::<u8>::empty() =~= s@.subrange(0, p as int));
    }
    let mut a: usize = 0;
    while a < p && (s[a] == 0x20 || s[a] == 0x09)
        invariant
            a <= p <= n,
            n == s@.len(),
            trim_front(s@.subrange(0, p as int)) == trim_front(s@.subrange(a as int, p as int)),
        decreases p - a,
    {
        proof {
            let rest = s@.subrange(a as int, p as int);
            assert(rest.drop_first() =~= s@.subrange(a + 1, p as int));
        }
        a += 1;
    }
    let mut b: usize = p;
    while b > a && (s[b - 1] == 0x20 || s[b - 1] == 0x09)
        invariant
            a <= b <= p <= n,
            n == s@.len(),
            trim_back(s@.subrange(a as int, p as int)) == trim_back(
                s@.subrange(a as int, b as int),
            ),
        decreases b - a,
    {
        proof {
            let rest = s@.subrange(a as int, b as int);
            assert(rest.drop_last() =~= s@.subrange(a as int, b - 1));
        }
        b -= 1;
    }
    let e = slice_subrange(s, a, b);
    assert(e@ == essence(s@));
    same_bytes(e, "application/msgpack".as_bytes()) || same_bytes(
        e,
        "application/x-msgpack".as_bytes(),
    ) || has_vendor_form(e, "+msgpack".as_bytes()) || has_vendor_form(e, "+x-msgpack".as_bytes())
}

impl MsgPack<Vec<u8>> {
    /// Takes the body of a request as a binary envelope if the request
    /// declares one. A request without a media type, or with another, is a
    /// bad request.
    pub fn from_request(content_type: Option<&str>, body: Vec<u8>) -> (r: Result<
        MsgPack<Vec<u8>>,
        ChcServiceError,
    >)
        ensures
            match taken_body(
                match content_type {
                    Some(declared) => Some(declared@),
                    None => None,
                },
                body@,
            ) {
                Ok(bytes) => r matches Ok(taken) && taken.0@ == bytes,
                Err(e) => r matches Err(err) && err@ == e,
            },
    {
        let accepted = match content_type {
            Some(declared) => is_msgpack_media_type(declared),
            None => false,
        };
        if accepted {
            Ok(MsgPack(body))
        } else {
            Err(
                ChcServiceError::BadRequest(
                    "Expected request with `Content-Type: application/msgpack`".to_string(),
                ),
            )
        }
    }

    /// The answer that carries this envelope: status 200, and the bytes
    /// declared as a binary envelope.
    pub fn into_response(self) -> (r: Response)
        ensures
            r@ == bytes_answer(200, BodyKind::MsgPack, self.0@),
    {
        Response::bytes(200, BodyKind::MsgPack, self.0)
    }
}

/// A request that declares no media type, or one that is not taken as a
/// binary envelope, is answered with status 400. What refuses it sees the
/// declared type and the body only, so no chain can change.
pub proof fn law_wrong_media_type_is_400(declared: Option<Seq<char>>, body: Seq<u8>)
    requires
        declared matches Some(text) ==> !accepts_media_type(encode_utf8(text)),
    ensures
        taken_body(declared, body) matches Err(e) && answer_of(e).status == 400,
{
}

/// The answer to a request whose result could not be put into an envelope:
/// status 500 and the encoder's words.
pub fn encoding_failed(cause: &str) -> (r: Response)
    ensures
        r@ == text_answer(500, cause@),
{
    Response::text(500, cause)
}

} // verus!
