//! Chain keys: the pair of content hashes that names one chain, and its
//! base-encoded form in a request path.
use vstd::prelude::*;
use vstd::string::StringSliceAdditionalSpecFns;
use vstd::utf8::encode_utf8;
use crate::bytes::{bytes_eq, copy_bytes};
use crate::error::{ChcServiceError, ErrorModel};

verus! {

/// `holo_hash::HoloHashError`, the failure of the outside decoders. Nothing
/// is read from it.
#[verifier::external_type_specification]
#[verifier::external_body]
pub struct ExHoloHashError(holo_hash::HoloHashError);

/// The raw bytes of the application hash that a base-encoded text stands
/// for, if it stands for one.
pub uninterp spec fn dna_hash_of_text(text: Seq<char>) -> Option<Seq<u8>>;

/// The raw bytes of the agent key that a base-encoded text stands for, if it
/// stands for one.
pub uninterp spec fn agent_key_of_text(text: Seq<char>) -> Option<Seq<u8>>;

/// The base-encoded text of the raw bytes of a hash.
pub uninterp spec fn hash_text(raw: Seq<u8>) -> Seq<char>;

/// `holo_hash::DnaHashB64::from_b64_str`, with the raw bytes of the hash it
/// reads. The contract claims no more than that the outcome is fixed by the
/// text. Texts whose first character takes more than one byte are left out:
/// the outside function cuts a text behind its first byte and panics where
/// that is no character boundary.
#[verifier::external_body]
fn decode_dna_hash(text: &str) -> (r: Result<Vec<u8>, holo_hash::HoloHashError>)
    requires
        encode_utf8(text@).len() > 0 ==> encode_utf8(text@)[0] < 0x80,
    ensures
        match r {
            Ok(raw) => dna_hash_of_text(text@) == Some(raw@),
            Err(_) => dna_hash_of_text(text@).is_none(),
        },
{
    match holo_hash::DnaHashB64::from_b64_str(text) {
        Ok(hash) => Ok(holo_hash::DnaHash::from(hash).into_inner()),
        Err(e) => Err(e),
    }
}

/// `holo_hash::AgentPubKeyB64::from_b64_str`, with the raw bytes of the key
/// it reads. The contract claims no more than that the outcome is fixed by
/// the text. Texts whose first character takes more than one byte are left
/// out: the outside function cuts a text behind its first byte and panics
/// where that is no character boundary.
#[verifier::external_body]
fn decode_agent_key(text: &str) -> (r: Result<Vec<u8>, holo_hash::HoloHashError>)
    requires
        encode_utf8(text@).len() > 0 ==> encode_utf8(text@)[0] < 0x80,
    ensures
        match r {
            Ok(raw) => agent_key_of_text(text@) == Some(raw@),
            Err(_) => agent_key_of_text(text@).is_none(),
        },
{
    match holo_hash::AgentPubKeyB64::from_b64_str(text) {
        Ok(key) => Ok(holo_hash::AgentPubKey::from(key).into_inner()),
        Err(e) => Err(e),
    }
}

/// `holo_hash::holo_hash_encode`: the text of raw hash bytes. The contract
/// claims no more than that the text is fixed by the bytes.
#[verifier::external_body]
pub(crate) fn encode_hash(raw: &Vec<u8>) -> (r: String)
    ensures
        r@ == hash_text(raw@),
{
    holo_hash::holo_hash_encode(raw)
}

/// The two kinds of hash in a chain key.
#[derive(Clone, Copy, Debug, PartialEq, Eq, Structural)]
pub enum HashKind {
    /// The hash of an application.
    Dna,
    /// The public key of an agent.
    Agent,
}

impl HashKind {
    /// The three bytes that the raw form of a hash of this kind begins with.
    pub open spec fn prefix(self) -> Seq<u8> {
        match self {
            HashKind::Dna => seq![0x84u8, 0x2du8, 0x24u8],
            HashKind::Agent => seq![0x84u8, 0x20u8, 0x24u8],
        }
    }

    /// What the outside decoder of this kind gives for a text.
    pub open spec fn decoded(self, text: Seq<char>) -> Option<Seq<u8>> {
        match self {
            HashKind::Dna => dna_hash_of_text(text),
            HashKind::Agent => agent_key_of_text(text),
        }
    }
}

/// The length in bytes of the raw form of a hash: three bytes of prefix,
/// thirty-two of digest and four of location.
pub const RAW_LEN: usize = 39;

/// The length in bytes of the text of a hash: the letter `u` and fifty-two
/// base-encoded characters.
pub const TEXT_LEN: usize = 53;

/// A text has the shape of a hash text when it is 53 bytes long and begins
/// with the letter `u`.
pub open spec fn has_text_shape(text: Seq<char>) -> bool {
    encode_utf8(text).len() == TEXT_LEN && encode_utf8(text)[0] == 0x75
}

/// Raw bytes have the shape of a hash of a kind when they are 39 bytes long
/// and begin with the prefix of the kind.
pub open spec fn has_raw_shape(raw: Seq<u8>, kind: HashKind) -> bool {
    raw.len() == RAW_LEN && raw.subrange(0, 3) == kind.prefix()
}

/// The hash that a text is accepted as: what it decodes to, provided that
/// text and bytes have the shape of a hash of the kind, and that the bytes
/// are written as exactly this text.
pub open spec fn accepted_hash(text: Seq<char>, kind: HashKind, decoded: Option<Seq<u8>>) -> Option<
    Seq<u8>,
> {
    match decoded {
        Some(raw) => if has_text_shape(text) && has_raw_shape(raw, kind) && hash_text(raw)
            == text {
            Some(raw)
        } else {
            None
        },
        None => None,
    }
}

/// Whether a text has the shape of a hash text.
pub fn is_text_shaped(text: &String) -> (r: bool)
    ensures
        r == has_text_shape(text@),
{
    let bytes = text.as_str().as_bytes();
    bytes.len() == TEXT_LEN && bytes[0] == 0x75
}

/// Whether raw bytes have the shape of a hash of a kind.
pub fn is_raw_shaped(raw: &Vec<u8>, kind: HashKind) -> (r: bool)
    ensures
        r == has_raw_shape(raw@, kind),
{
    if raw.len() != RAW_LEN {
        return false;
    }
    let second: u8 = match kind {
        HashKind::Dna => 0x2d,
        HashKind::Agent => 0x20,
    };
    let r = raw[0] == 0x84 && raw[1] == second && raw[2] == 0x24;
    proof {
        let lead = raw@.subrange(0, 3);
        assert(lead.len() == 3 && lead[0] == raw@[0] && lead[1] == raw@[1] && lead[2] == raw@[2]);
        if r {
            assert(lead =~= kind.prefix());
        } else {
            assert(kind.prefix()[0] == 0x84 && kind.prefix()[1] == second && kind.prefix()[2]
                == 0x24);
        }
    }
    r
}

/// Keeps decoded hash bytes only if they have the shape of a hash of the
/// kind and their text is the text they were read from.
pub fn confirm_hash(text: &String, kind: HashKind, raw: Vec<u8>, rendered: &String) -> (r: Option<
    Vec<u8>,
>)
    ensures
        r matches Some(kept) ==> kept@ == raw@,
        r.is_some() == (has_raw_shape(raw@, kind) && rendered@ == text@),
{
    if is_raw_shaped(&raw, kind) && *rendered == *text {
        Some(raw)
    } else {
        None
    }
}

/// Reads a text as a hash of a kind: the raw bytes that it is accepted as,
/// or none.
pub fn parse_hash(text: &String, kind: HashKind) -> (r: Option<Vec<u8>>)
    ensures
        match accepted_hash(text@, kind, kind.decoded(text@)) {
            Some(raw) => r matches Some(found) && found@ == raw,
            None => r.is_none(),
        },
{
    if !is_text_shaped(text) {
        return None;
    }
    let decoded = match kind {
        HashKind::Dna => decode_dna_hash(text.as_str()),
        HashKind::Agent => decode_agent_key(text.as_str()),
    };
    match decoded {
        Ok(raw) => {
            let rendered = encode_hash(&raw);
            confirm_hash(text, kind, raw, &rendered)
        },
        Err(_) => None,
    }
}

/// The identity of one chain: the hash of the application and the key of the
/// agent, each as raw bytes. Two keys are the same when both parts hold the
/// same bytes.
#[derive(Clone, Debug, PartialEq, Eq, PartialOrd, Ord, Hash)]
pub struct ChainKey {
    pub dna_hash: Vec<u8>,
    pub agent_pubkey: Vec<u8>,
}

/// The mathematical value of a [`ChainKey`].
pub struct KeyModel {
    pub dna_hash: Seq<u8>,
    pub agent_pubkey: Seq<u8>,
}

impl View for ChainKey {
    type V = KeyModel;

    open spec fn view(&self) -> KeyModel {
        KeyModel { dna_hash: self.dna_hash@, agent_pubkey: self.agent_pubkey@ }
    }
}

/// The two path parameters of a request: the base-encoded application hash
/// and agent key.
#[derive(Debug)]
pub struct ChcPathParams {
    pub dna_hash: String,
    pub agent_pubkey: String,
}

/// The mathematical value of [`ChcPathParams`].
pub struct PathModel {
    pub dna_hash: Seq<char>,
    pub agent_pubkey: Seq<char>,
}

impl View for ChcPathParams {
    type V = PathModel;

    open spec fn view(&self) -> PathModel {
        PathModel { dna_hash: self.dna_hash@, agent_pubkey: self.agent_pubkey@ }
    }
}

/// The text of the failure for a first path parameter that is no
/// application hash.
pub open spec fn bad_dna_text() -> Seq<char> {
    "Failed to get DnaHash from base64 str"@
}

/// The text of the failure for a second path parameter that is no agent key.
pub open spec fn bad_agent_text() -> Seq<char> {
    "Failed to get AgentPubkey from base64 str"@
}

/// The chain key that path parameters name, or the failure: the application
/// hash is looked at first.
pub open spec fn chain_key_of(path: PathModel) -> Result<KeyModel, ErrorModel> {
    match accepted_hash(path.dna_hash, HashKind::Dna, dna_hash_of_text(path.dna_hash)) {
        None => Err(ErrorModel::BadRequest(bad_dna_text())),
        Some(dna_hash) => match accepted_hash(
            path.agent_pubkey,
            HashKind::Agent,
            agent_key_of_text(path.agent_pubkey),
        ) {
            None => Err(ErrorModel::BadRequest(bad_agent_text())),
            Some(agent_pubkey) => Ok(KeyModel { dna_hash, agent_pubkey }),
        },
    }
}

/// The path parameters that a chain key is written as.
pub open spec fn path_of(key: KeyModel) -> PathModel {
    PathModel { dna_hash: hash_text(key.dna_hash), agent_pubkey: hash_text(key.agent_pubkey) }
}

impl ChcPathParams {
    /// Reads the chain key that the parameters name. A parameter is accepted
    /// only if it has the shape of a hash text, decodes to a hash of its kind
    /// and that hash is written as exactly this parameter; otherwise the
    /// request is bad.
    pub fn try_into(self) -> (r: Result<ChainKey, ChcServiceError>)
        ensures
            match chain_key_of(self@) {
                Ok(key) => r matches Ok(k) && k@ == key,
                Err(e) => r matches Err(err) && err@ == e,
            },
    {
        let dna_hash = match parse_hash(&self.dna_hash, HashKind::Dna) {
            Some(raw) => raw,
            None => {
                return Err(
                    ChcServiceError::BadRequest(
                        "Failed to get DnaHash from base64 str".to_string(),
                    ),
                );
            },
        };
        match parse_hash(&self.agent_pubkey, HashKind::Agent) {
            Some(agent_pubkey) => Ok(ChainKey { dna_hash, agent_pubkey }),
            None => Err(
                ChcServiceError::BadRequest(
                    "Failed to get AgentPubkey from base64 str".to_string(),
                ),
            ),
        }
    }
}

impl ChainKey {
    /// Whether two keys name the same chain.
    pub fn same(&self, other: &ChainKey) -> (r: bool)
        ensures
            r == (self@ == other@),
    {
        bytes_eq(&self.dna_hash, &other.dna_hash) && bytes_eq(
            &self.agent_pubkey,
            &other.agent_pubkey,
        )
    }

    /// A copy of this key.
    pub fn duplicate(&self) -> (r: ChainKey)
        ensures
            r@ == self@,
    {
        ChainKey {
            dna_hash: copy_bytes(&self.dna_hash),
            agent_pubkey: copy_bytes(&self.agent_pubkey),
        }
    }

    /// The path parameters that this key is written as.
    pub fn to_path_params(&self) -> (r: ChcPathParams)
        ensures
            r@ == path_of(self@),
    {
        ChcPathParams {
            dna_hash: encode_hash(&self.dna_hash),
            agent_pubkey: encode_hash(&self.agent_pubkey),
        }
    }
}

/// Round trip: path parameters that are read as a chain key are exactly what
/// that key is written as.
pub proof fn law_path_round_trip(path: PathModel)
    requires
        chain_key_of(path) is Ok,
    ensures
        path_of(chain_key_of(path)->Ok_0) == path,
{
}

/// Path parameters are read as a chain key only if each is 53 bytes long and
/// begins with `u`; the key then holds two hashes of 39 bytes, the first
/// with the prefix of an application hash and the second with that of an
/// agent key.
pub proof fn law_chain_key_shape(path: PathModel)
    requires
        chain_key_of(path) is Ok,
    ensures
        has_text_shape(path.dna_hash),
        has_text_shape(path.agent_pubkey),
        has_raw_shape(chain_key_of(path)->Ok_0.dna_hash, HashKind::Dna),
        has_raw_shape(chain_key_of(path)->Ok_0.agent_pubkey, HashKind::Agent),
{
}

} // verus!
