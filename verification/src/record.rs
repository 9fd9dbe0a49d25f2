//! Signed actions and records: the plain values that the chain logic reads.
use vstd::prelude::*;
use crate::bytes::{copy_bytes, copy_opt_bytes, copy_opt_pair, opt_bytes, opt_pair};

verus! {

/// A signed action of a source chain, as far as the catalog reads it.
///
/// `hash` is the action's own content hash, `seq` its position in its chain,
/// `prev_action` the hash of the action before it (absent for a genesis
/// action), and `entry_hash` the hash of the entry that the action declares,
/// if it declares one. `encoded` is the serialized signed action that these
/// values were read from; the catalog stores it and hands it back untouched.
#[derive(Clone, Debug, PartialEq, Eq)]
pub struct SignedAction {
    pub hash: Vec<u8>,
    pub seq: u32,
    pub prev_action: Option<Vec<u8>>,
    pub entry_hash: Option<Vec<u8>>,
    pub encoded: Vec<u8>,
}

/// The mathematical value of a [`SignedAction`].
pub struct ActionModel {
    pub hash: Seq<u8>,
    pub seq: int,
    pub prev_action: Option<Seq<u8>>,
    pub entry_hash: Option<Seq<u8>>,
    pub encoded: Seq<u8>,
}

impl View for SignedAction {
    type V = ActionModel;

    open spec fn view(&self) -> ActionModel {
        ActionModel {
            hash: self.hash@,
            seq: self.seq as int,
            prev_action: opt_bytes(self.prev_action),
            entry_hash: opt_bytes(self.entry_hash),
            encoded: self.encoded@,
        }
    }
}

impl SignedAction {
    /// A copy of this action.
    pub fn duplicate(&self) -> (r: SignedAction)
        ensures
            r@ == self@,
    {
        SignedAction {
            hash: copy_bytes(&self.hash),
            seq: self.seq,
            prev_action: copy_opt_bytes(&self.prev_action),
            entry_hash: copy_opt_bytes(&self.entry_hash),
            encoded: copy_bytes(&self.encoded),
        }
    }
}

/// One stored record: a signed action and, where the action declares an
/// entry, the encrypted entry with its signature.
#[derive(Clone, Debug, PartialEq, Eq)]
pub struct RecordItem {
    pub action: SignedAction,
    pub encrypted_entry: Option<(Vec<u8>, Vec<u8>)>,
}

/// The mathematical value of a [`RecordItem`].
pub struct RecordModel {
    pub action: ActionModel,
    pub encrypted_entry: Option<(Seq<u8>, Seq<u8>)>,
}

impl RecordModel {
    /// A record is well formed when it carries an encrypted entry exactly if
    /// its action declares an entry hash.
    pub open spec fn well_formed(self) -> bool {
        self.encrypted_entry.is_some() <==> self.action.entry_hash.is_some()
    }
}

impl View for RecordItem {
    type V = RecordModel;

    open spec fn view(&self) -> RecordModel {
        RecordModel { action: self.action@, encrypted_entry: opt_pair(self.encrypted_entry) }
    }
}

impl RecordItem {
    /// Whether the record carries an encrypted entry exactly if its action
    /// declares an entry hash.
    pub fn is_well_formed(&self) -> (r: bool)
        ensures
            r == self@.well_formed(),
    {
        self.encrypted_entry.is_some() == self.action.entry_hash.is_some()
    }

    /// A copy of this record.
    pub fn duplicate(&self) -> (r: RecordItem)
        ensures
            r@ == self@,
    {
        RecordItem {
            action: self.action.duplicate(),
            encrypted_entry: copy_opt_pair(&self.encrypted_entry),
        }
    }
}

/// The values of a sequence of records, in order.
pub open spec fn record_models(records: Seq<RecordItem>) -> Seq<RecordModel> {
    Seq::new(records.len(), |i: int| records[i]@)
}

/// What decoding the serialized signed action of one batch item gave.
#[derive(Clone, Debug, PartialEq, Eq)]
pub enum ActionDecoding {
    /// The bytes held a signed action.
    Decoded(SignedAction),
    /// The bytes were not a signed action; the text says why.
    Malformed(String),
    /// The decoder itself broke down; the text says how.
    Failed(String),
}

/// The mathematical value of an [`ActionDecoding`].
pub enum DecodingModel {
    Decoded(ActionModel),
    Malformed(Seq<char>),
    Failed(Seq<char>),
}

impl View for ActionDecoding {
    type V = DecodingModel;

    open spec fn view(&self) -> DecodingModel {
        match *self {
            ActionDecoding::Decoded(a) => DecodingModel::Decoded(a@),
            ActionDecoding::Malformed(text) => DecodingModel::Malformed(text@),
            ActionDecoding::Failed(text) => DecodingModel::Failed(text@),
        }
    }
}

/// One item of an append batch: the outcome of decoding its signed action,
/// the signature that came with the action, and the encrypted entry with its
/// signature, if one was sent.
#[derive(Clone, Debug, PartialEq, Eq)]
pub struct AddRecordPayload {
    pub signed_action: ActionDecoding,
    pub signed_action_signature: Vec<u8>,
    pub encrypted_entry: Option<(Vec<u8>, Vec<u8>)>,
}

/// The mathematical value of an [`AddRecordPayload`].
pub struct PayloadModel {
    pub signed_action: DecodingModel,
    pub signed_action_signature: Seq<u8>,
    pub encrypted_entry: Option<(Seq<u8>, Seq<u8>)>,
}

impl View for AddRecordPayload {
    type V = PayloadModel;

    open spec fn view(&self) -> PayloadModel {
        PayloadModel {
            signed_action: self.signed_action@,
            signed_action_signature: self.signed_action_signature@,
            encrypted_entry: opt_pair(self.encrypted_entry),
        }
    }
}

/// The values of the items of a batch, in order.
pub open spec fn payload_models(batch: Seq<AddRecordPayload>) -> Seq<PayloadModel> {
    Seq::new(batch.len(), |i: int| batch[i]@)
}

} // verus!
