use chc_service::{
    add_records, get_record_data, ActionDecoding, AddRecordPayload, AppState, ChcPathParams,
    GetRecordsPayload, GetRecordsRequest, MsgPack, SignedAction,
};
use holo_hash::{ActionHash, AgentPubKey, DnaHash, EntryHash};
use holochain_integrity_types::{
    Action, ActionHashed, AgentValidationPkg, Create, Dna, EntryType, Signature,
    SignedActionHashed, Timestamp,
};
use holochain_serialized_bytes::SerializedBytesError;

fn raw_36(tag: u8) -> Vec<u8> {
    let core = vec![tag; 32];
    let loc = holo_hash::encode::holo_dht_location_bytes(&core);
    let mut raw = core;
    raw.extend(loc);
    raw
}

fn signed(action: Action, tag: u8) -> SignedActionHashed {
    let hashed = ActionHashed::with_pre_hashed(action, ActionHash::from_raw_36(raw_36(tag)));
    SignedActionHashed::with_presigned(hashed, Signature([tag; 64]))
}

fn decode_action(bytes: &[u8]) -> ActionDecoding {
    let decoded: Result<SignedActionHashed, SerializedBytesError> =
        holochain_serialized_bytes::decode(bytes);
    match decoded {
        Ok(signed) => ActionDecoding::Decoded(SignedAction {
            hash: signed.as_hash().get_raw_39().to_vec(),
            seq: signed.action().action_seq(),
            prev_action: signed.action().prev_action().map(|h| h.get_raw_39().to_vec()),
            entry_hash: signed.action().entry_hash().map(|h| h.get_raw_39().to_vec()),
            encoded: bytes.to_vec(),
        }),
        Err(SerializedBytesError::Deserialize(text)) => ActionDecoding::Malformed(text),
        Err(SerializedBytesError::Serialize(text)) => ActionDecoding::Failed(text),
    }
}

fn payload(signed: &SignedActionHashed, entry: Option<Vec<u8>>) -> AddRecordPayload {
    let bytes = holochain_serialized_bytes::encode(signed).unwrap();
    AddRecordPayload {
        signed_action: decode_action(&bytes),
        signed_action_signature: signed.signature().0.to_vec(),
        encrypted_entry: entry.map(|e| (e, vec![8; 64])),
    }
}

fn genesis_records(agent: &AgentPubKey, dna: &DnaHash) -> Vec<SignedActionHashed> {
    let dna_action = signed(
        Action::Dna(Dna { author: agent.clone(), timestamp: Timestamp(1), hash: dna.clone() }),
        10,
    );
    let agent_validation = signed(
        Action::AgentValidationPkg(AgentValidationPkg {
            author: agent.clone(),
            timestamp: Timestamp(2),
            action_seq: 1,
            prev_action: dna_action.as_hash().clone(),
            membrane_proof: None,
        }),
        11,
    );
    let agent_action = signed(
        Action::Create(Create {
            author: agent.clone(),
            timestamp: Timestamp(3),
            action_seq: 2,
            prev_action: agent_validation.as_hash().clone(),
            entry_type: EntryType::AgentPubKey,
            entry_hash: EntryHash::from_raw_36(raw_36(1)),
            weight: Default::default(),
        }),
        12,
    );
    vec![dna_action, agent_validation, agent_action]
}

fn read_all() -> GetRecordsRequest {
    GetRecordsRequest {
        payload: GetRecordsPayload { since_hash: None, nonce: vec![0; 32] },
        signature: vec![0; 64],
    }
}

#[test]
fn test_add_and_get_records() {
    let mut state = AppState::new();
    let agent = AgentPubKey::from_raw_36(raw_36(1));
    let dna = DnaHash::from_raw_36(raw_36(2));
    let path = || ChcPathParams { dna_hash: dna.to_string(), agent_pubkey: agent.to_string() };

    let before = get_record_data(path(), &state, read_all());
    assert_eq!(before.unwrap_err().into_response().status, 498);

    let records = genesis_records(&agent, &dna);
    let batch = vec![
        payload(&records[0], None),
        payload(&records[1], None),
        payload(&records[2], Some(vec![1, 2, 3])),
    ];
    assert_eq!(add_records(path(), &mut state, batch), Ok(()));

    let MsgPack(result) = get_record_data(path(), &state, read_all()).unwrap();
    assert_eq!(result.len(), 3);
    for (i, (action, entry)) in result.iter().enumerate() {
        let again: SignedActionHashed =
            holochain_serialized_bytes::decode(&action.encoded).unwrap();
        assert_eq!(again, records[i]);
        assert_eq!(action.hash, records[i].as_hash().get_raw_39().to_vec());
        assert_eq!(action.seq as usize, i);
        assert_eq!(entry.is_some(), i == 2);
    }
}

#[test]
fn bytes_that_are_no_action_are_a_bad_request() {
    let mut state = AppState::new();
    let agent = AgentPubKey::from_raw_36(raw_36(1));
    let dna = DnaHash::from_raw_36(raw_36(2));
    let path = ChcPathParams { dna_hash: dna.to_string(), agent_pubkey: agent.to_string() };
    let broken = AddRecordPayload {
        signed_action: decode_action(&[0xc0]),
        signed_action_signature: vec![0; 64],
        encrypted_entry: None,
    };
    assert!(matches!(broken.signed_action, ActionDecoding::Malformed(_)));
    let failure = add_records(path, &mut state, vec![broken]).unwrap_err();
    assert_eq!(failure.into_response().status, 400);
    assert_eq!(state.len(), 0);
}

#[test]
fn real_actions_that_fork_are_out_of_sync() {
    let mut state = AppState::new();
    let agent = AgentPubKey::from_raw_36(raw_36(1));
    let dna = DnaHash::from_raw_36(raw_36(2));
    let path = || ChcPathParams { dna_hash: dna.to_string(), agent_pubkey: agent.to_string() };
    let records = genesis_records(&agent, &dna);
    add_records(path(), &mut state, vec![payload(&records[0], None)]).unwrap();
    let answer = add_records(path(), &mut state, vec![payload(&records[2], Some(vec![1]))])
        .unwrap_err()
        .into_response();
    assert_eq!(answer.status, 409);
    assert_eq!(answer.expected, Some((1, Some(records[0].as_hash().get_raw_39().to_vec()))));
}
