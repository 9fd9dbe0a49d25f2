//! The three routes of the service as functions on plain values: append to
//! a chain, read from a chain, and the answer for every other path.
use vstd::prelude::*;
use crate::bytes::{opt_bytes, opt_pair};
use crate::chain::{append_result, not_found_text};
use crate::error::{answers, ChcServiceError, ErrorModel};
use crate::key::{chain_key_of, ChcPathParams, KeyModel, PathModel};
use crate::msgpack_utils::MsgPack;
use crate::record::{
    payload_models, AddRecordPayload, PayloadModel, RecordItem, RecordModel, SignedAction,
};
use crate::response::{
    bytes_answer, empty_answer, no_route_text, text_answer, BodyKind, Response,
};
use crate::state::{chain_of, read_result, AppState};

verus! {

/// What a read request carries beside its signature: the anchor, if the
/// caller has one, and a nonce.
#[derive(Clone, Debug, PartialEq, Eq)]
pub struct GetRecordsPayload {
    pub since_hash: Option<Vec<u8>>,
    pub nonce: Vec<u8>,
}

/// A read request. Only the anchor is looked at: the nonce and the signature
/// are taken as they come.
#[derive(Clone, Debug, PartialEq, Eq)]
pub struct GetRecordsRequest {
    pub payload: GetRecordsPayload,
    pub signature: Vec<u8>,
}

/// What a read gives: for each record its signed action and, where it has
/// one, its encrypted entry with the entry's signature.
pub type GetRecordDataResult = Vec<(SignedAction, Option<(Vec<u8>, Vec<u8>)>)>;

/// The values of the pairs of a read result, as records, in order.
pub open spec fn record_data_models(
    data: Seq<(SignedAction, Option<(Vec<u8>, Vec<u8>)>)>,
) -> Seq<RecordModel> {
    Seq::new(
        data.len(),
        |i: int| RecordModel { action: data[i].0@, encrypted_entry: opt_pair(data[i].1) },
    )
}

/// What an append request does to the store, or the failure it ends in. An
/// empty batch is accepted whatever the path says. Otherwise the path must
/// name a chain key, and the batch is judged against the chain of that key.
pub open spec fn add_outcome(
    chains: Map<KeyModel, Seq<RecordModel>>,
    path: PathModel,
    batch: Seq<PayloadModel>,
) -> Result<Map<KeyModel, Seq<RecordModel>>, ErrorModel> {
    if batch.len() == 0 {
        Ok(chains)
    } else {
        match chain_key_of(path) {
            Err(e) => Err(e),
            Ok(key) => match append_result(chain_of(chains, key), batch) {
                Err(e) => Err(e),
                Ok(chain) => Ok(chains.insert(key, chain)),
            },
        }
    }
}

/// What a read request gives, or the failure it ends in: the path must name
/// a chain key, and the chain of that key must have the records asked for.
pub open spec fn read_outcome(
    chains: Map<KeyModel, Seq<RecordModel>>,
    path: PathModel,
    since: Option<Seq<u8>>,
) -> Result<Seq<RecordModel>, ErrorModel> {
    match chain_key_of(path) {
        Err(e) => Err(e),
        Ok(key) => match read_result(chains, key, since) {
            Some(records) => Ok(records),
            None => Err(ErrorModel::HashNotFound(not_found_text())),
        },
    }
}

/// Independence of chains: an accepted append changes no chain but the one
/// that its path names; every other key has a chain after it exactly if it
/// had one before, with the same records.
pub proof fn law_other_chains_untouched(
    chains: Map<KeyModel, Seq<RecordModel>>,
    path: PathModel,
    batch: Seq<PayloadModel>,
    other: KeyModel,
)
    requires
        add_outcome(chains, path, batch) is Ok,
        chain_key_of(path) matches Ok(key) ==> other != key,
    ensures
        ({
            let after = add_outcome(chains, path, batch)->Ok_0;
            &&& after.contains_key(other) == chains.contains_key(other)
            &&& chain_of(after, other) == chain_of(chains, other)
        }),
{
}

/// Appends a batch of records to the chain that the path names.
///
/// The store changes only when the batch is accepted, and then only in the
/// chain that the path names.
pub fn add_records(
    params: ChcPathParams,
    app_state: &mut AppState,
    request: Vec<AddRecordPayload>,
) -> (r: Result<(), ChcServiceError>)
    ensures
        final(app_state).wf(),
        match add_outcome(old(app_state)@, params@, payload_models(request@)) {
            Ok(chains) => r.is_ok() && final(app_state)@ == chains,
            Err(e) => r matches Err(err) && err@ == e && final(app_state)@ == old(app_state)@,
        },
{
    proof {
        use_type_invariant(&*app_state);
    }
    if request.len() == 0 {
        return Ok(());
    }
    let key = match params.try_into() {
        Ok(key) => key,
        Err(e) => {
            return Err(e);
        },
    };
    app_state.add_records(&key, request)
}

/// Reads the chain that the path names, from the request's anchor on.
pub fn get_record_data(
    params: ChcPathParams,
    app_state: &AppState,
    request: GetRecordsRequest,
) -> (r: Result<MsgPack<GetRecordDataResult>, ChcServiceError>)
    ensures
        match read_outcome(app_state@, params@, opt_bytes(request.payload.since_hash)) {
            Ok(records) => r matches Ok(found) && record_data_models(found.0@) == records,
            Err(e) => r matches Err(err) && err@ == e,
        },
{
    let key = match params.try_into() {
        Ok(key) => key,
        Err(e) => {
            return Err(e);
        },
    };
    let records = match app_state.get_record_data(&key, &request.payload.since_hash) {
        Ok(records) => records,
        Err(e) => {
            return Err(e);
        },
    };
    Ok(MsgPack(into_record_data(records)))
}

/// Takes records apart into the pairs that a read gives.
pub fn into_record_data(records: Vec<RecordItem>) -> (r: GetRecordDataResult)
    ensures
        record_data_models(r@) == crate::record::record_models(records@),
{
    let ghost all = crate::record::record_models(records@);
    let mut data: Vec<(SignedAction, Option<(Vec<u8>, Vec<u8>)>)> = Vec::new();
    proof {
        assert(record_data_models(data@) =~= all.subrange(0, 0));
    }
    for item in it: records
        invariant
            all == crate::record::record_models(it.seq()),
            record_data_models(data@) == all.subrange(0, it.index() as int),
    {
        let ghost before = record_data_models(data@);
        data.push((item.action, item.encrypted_entry));
        assert(record_data_models(data@) =~= before.push(item@));
        assert(before.push(item@) =~= all.subrange(0, it.index() + 1));
    }
    proof {
        assert(all.subrange(0, all.len() as int) =~= all);
    }
    data
}

/// The answer to an append request: status 200 without a body where the
/// batch was accepted, and otherwise the answer of the failure.
pub fn append_answer(outcome: Result<(), ChcServiceError>) -> (r: Response)
    ensures
        match outcome {
            Ok(_) => r@ == empty_answer(200),
            Err(e) => answers(e@, r@),
        },
{
    match outcome {
        Ok(_) => Response::ok_empty(),
        Err(e) => e.into_response(),
    }
}

/// The answer to a read request: status 200 with the encoded records where
/// the read gave any, and otherwise the answer of the failure.
pub fn read_answer(outcome: Result<MsgPack<Vec<u8>>, ChcServiceError>) -> (r: Response)
    ensures
        match outcome {
            Ok(encoded) => r@ == bytes_answer(200, BodyKind::MsgPack, encoded.0@),
            Err(e) => answers(e@, r@),
        },
{
    match outcome {
        Ok(encoded) => encoded.into_response(),
        Err(e) => e.into_response(),
    }
}

/// The answer to a request for a path that is no route: status 404 and a
/// fixed text.
pub fn not_found() -> (r: Response)
    ensures
        r@ == text_answer(404, no_route_text()),
{
    Response::text(404, "404 - Not Found")
}

} // verus!
