use chc_service::key::{confirm_hash, is_raw_shaped, is_text_shaped, parse_hash, HashKind};
use chc_service::{ChainKey, ChcPathParams, ChcServiceError};

const DNA: [u8; 3] = [0x84, 0x2d, 0x24];
const AGENT: [u8; 3] = [0x84, 0x20, 0x24];

fn raw_hash(prefix: [u8; 3], tag: u8) -> Vec<u8> {
    let core = vec![tag; 32];
    let loc = holo_hash::encode::holo_dht_location_bytes(&core);
    let mut raw = prefix.to_vec();
    raw.extend(core);
    raw.extend(loc);
    raw
}

fn text_of(raw: &[u8]) -> String {
    holo_hash::holo_hash_encode(raw)
}

fn bad_dna() -> Result<ChainKey, ChcServiceError> {
    Err(ChcServiceError::BadRequest("Failed to get DnaHash from base64 str".to_string()))
}

fn bad_agent() -> Result<ChainKey, ChcServiceError> {
    Err(ChcServiceError::BadRequest("Failed to get AgentPubkey from base64 str".to_string()))
}

fn params(dna_hash: &str, agent_pubkey: &str) -> ChcPathParams {
    ChcPathParams { dna_hash: dna_hash.to_string(), agent_pubkey: agent_pubkey.to_string() }
}

#[test]
fn path_is_read_as_the_raw_bytes_of_its_hashes() {
    let dna = raw_hash(DNA, 1);
    let agent = raw_hash(AGENT, 2);
    let key = params(&text_of(&dna), &text_of(&agent)).try_into().unwrap();
    assert_eq!(key.dna_hash.len(), 39);
    assert_eq!(key, ChainKey { dna_hash: dna, agent_pubkey: agent });
}

#[test]
fn known_text_of_a_hash() {
    let all_zero = raw_hash(DNA, 0);
    let text = text_of(&all_zero);
    assert_eq!(text.len(), 53);
    assert!(text.starts_with(&format!("uhC0k{}", "A".repeat(42))));
    let key = ChainKey { dna_hash: all_zero.clone(), agent_pubkey: raw_hash(AGENT, 0) };
    let path = key.to_path_params();
    assert_eq!(path.dna_hash, text);
    assert!(path.agent_pubkey.starts_with("uhCAk"));
}

#[test]
fn read_then_written_gives_the_same_text() {
    for tag in [0u8, 1, 77, 255] {
        let dna = text_of(&raw_hash(DNA, tag));
        let agent = text_of(&raw_hash(AGENT, tag.wrapping_add(9)));
        let key = params(&dna, &agent).try_into().unwrap();
        let written = key.to_path_params();
        assert_eq!(written.dna_hash, dna);
        assert_eq!(written.agent_pubkey, agent);
    }
}

#[test]
fn hash_of_another_kind_is_refused() {
    let dna = text_of(&raw_hash(DNA, 1));
    let agent = text_of(&raw_hash(AGENT, 2));
    assert_eq!(params(&agent, &agent).try_into(), bad_dna());
    assert_eq!(params(&dna, &dna).try_into(), bad_agent());
    assert_eq!(params(&agent, &dna).try_into(), bad_dna());
}

#[test]
fn malformed_texts_are_refused() {
    let dna = text_of(&raw_hash(DNA, 1));
    let agent = text_of(&raw_hash(AGENT, 2));
    assert_eq!(params("", &agent).try_into(), bad_dna());
    assert_eq!(params("u", &agent).try_into(), bad_dna());
    assert_eq!(params(&dna[1..], &agent).try_into(), bad_dna());
    assert_eq!(params(&dna[..52], &agent).try_into(), bad_dna());
    assert_eq!(params(&format!("{}A", dna), &agent).try_into(), bad_dna());
    assert_eq!(params(&format!("{}=", &dna[..52]), &agent).try_into(), bad_dna());
    assert_eq!(params(&dna.replace('A', "*"), &agent).try_into(), bad_dna());
    assert_eq!(params(&dna, "").try_into(), bad_agent());
    assert_eq!(params(&dna, "uhCAk").try_into(), bad_agent());
}

#[test]
fn text_that_begins_with_a_wide_character_is_refused() {
    let agent = text_of(&raw_hash(AGENT, 2));
    let wide = format!("\u{e9}{}", "A".repeat(51));
    assert_eq!(wide.len(), 53);
    assert_eq!(params(&wide, &agent).try_into(), bad_dna());
    assert_eq!(params(&text_of(&raw_hash(DNA, 1)), &wide).try_into(), bad_agent());
}

#[test]
fn wrong_checksum_is_refused() {
    let mut raw = raw_hash(DNA, 1);
    raw[38] ^= 1;
    let agent = text_of(&raw_hash(AGENT, 2));
    assert_eq!(params(&text_of(&raw), &agent).try_into(), bad_dna());
}

#[test]
fn decoded_bytes_are_kept_only_for_their_own_text() {
    let text = "uabc".to_string();
    let raw = raw_hash(DNA, 3);
    assert_eq!(
        confirm_hash(&text, HashKind::Dna, raw.clone(), &"uabc".to_string()),
        Some(raw.clone())
    );
    assert_eq!(confirm_hash(&text, HashKind::Dna, raw.clone(), &"uabd".to_string()), None);
    assert_eq!(confirm_hash(&text, HashKind::Dna, raw.clone(), &String::new()), None);
    assert_eq!(confirm_hash(&text, HashKind::Agent, raw, &"uabc".to_string()), None);
    assert_eq!(confirm_hash(&text, HashKind::Dna, vec![1, 2], &"uabc".to_string()), None);
}

#[test]
fn shape_of_a_hash_text() {
    assert!(is_text_shaped(&format!("u{}", "A".repeat(52))));
    assert!(is_text_shaped(&format!("u{}\u{e9}", "A".repeat(50))));
    assert!(!is_text_shaped(&format!("u{}", "A".repeat(51))));
    assert!(!is_text_shaped(&format!("u{}", "A".repeat(53))));
    assert!(!is_text_shaped(&format!("v{}", "A".repeat(52))));
    assert!(!is_text_shaped(&format!("\u{e9}{}", "A".repeat(51))));
    assert!(!is_text_shaped(&String::new()));
}

#[test]
fn shape_of_raw_hash_bytes() {
    assert!(is_raw_shaped(&raw_hash(DNA, 1), HashKind::Dna));
    assert!(is_raw_shaped(&raw_hash(AGENT, 1), HashKind::Agent));
    assert!(!is_raw_shaped(&raw_hash(AGENT, 1), HashKind::Dna));
    assert!(!is_raw_shaped(&raw_hash(DNA, 1), HashKind::Agent));
    assert!(!is_raw_shaped(&raw_hash(DNA, 1)[..38].to_vec(), HashKind::Dna));
    assert!(!is_raw_shaped(&vec![0x84, 0x2d], HashKind::Dna));
    assert!(!is_raw_shaped(&vec![], HashKind::Dna));
    let mut wrong = raw_hash(DNA, 1);
    wrong[2] = 0x25;
    assert!(!is_raw_shaped(&wrong, HashKind::Dna));
    let mut wrong = raw_hash(DNA, 1);
    wrong[0] = 0x85;
    assert!(!is_raw_shaped(&wrong, HashKind::Dna));
}

#[test]
fn one_text_is_read_as_the_hash_of_its_kind_only() {
    let dna = raw_hash(DNA, 5);
    let text = text_of(&dna);
    assert_eq!(parse_hash(&text, HashKind::Dna), Some(dna));
    assert_eq!(parse_hash(&text, HashKind::Agent), None);
    assert_eq!(parse_hash(&"u".to_string(), HashKind::Dna), None);
}
