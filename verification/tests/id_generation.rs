use kanbus::ids::{
    decode_hex, fixed_random_bytes, generate_issue_identifier, generate_many_identifiers,
    hash_identifier_material, identifier_for, is_taken, IssueIdentifierRequest,
};
use regex::Regex;
use sha2::{Digest, Sha256};

fn request(existing: &[&str]) -> IssueIdentifierRequest {
    IssueIdentifierRequest {
        title: "Test".to_string(),
        existing_ids: existing.iter().map(|id| id.to_string()).collect(),
        prefix: "tsk".to_string(),
        created_at: "2025-02-10T00:00:00+00:00".to_string(),
    }
}

fn expected_digits(title: &str, created_at: &str, random: &[u8]) -> String {
    let mut hasher = Sha256::new();
    hasher.update(title.as_bytes());
    hasher.update(created_at.as_bytes());
    hasher.update(random);
    format!("{:x}", hasher.finalize())[..6].to_string()
}

#[test]
fn generated_ids_follow_prefix_hex_format() {
    let result = generate_issue_identifier(&request(&[]), None).expect("identifier");
    let pattern = Regex::new(r"^tsk-[0-9a-f]{6}$").expect("regex");
    assert!(pattern.is_match(&result.identifier));
}

#[test]
fn generated_ids_are_unique() {
    let ids = generate_many_identifiers("Test", "tsk", 100, "2025-02-10T00:00:00+00:00").expect("ids");
    assert_eq!(ids.len(), 100);
    let distinct: std::collections::HashSet<&String> = ids.iter().collect();
    assert_eq!(distinct.len(), 100);
}

#[test]
fn collision_is_avoided() {
    let result = generate_issue_identifier(&request(&["tsk-aaaaaa"]), None).expect("identifier");
    assert_ne!(result.identifier, "tsk-aaaaaa");
}

#[test]
fn identifier_is_the_prefix_and_six_digits_of_the_hash() {
    let random = vec![1u8, 2, 3, 4, 5, 6, 7, 8];
    let digits = expected_digits("Test", "2025-02-10T00:00:00+00:00", &random);
    assert_eq!(hash_identifier_material("Test", "2025-02-10T00:00:00+00:00", &random), digits);
    assert_eq!(identifier_for(&request(&[]), &random), format!("tsk-{}", digits));
    assert_eq!(
        hash_identifier_material("Tést", "", &Vec::new()),
        expected_digits("Tést", "", &[])
    );
}

#[test]
fn fixed_bytes_give_a_fixed_identifier_or_exhaust_the_attempts() {
    let given = vec![0xab, 0xcd];
    let padded = vec![0xab, 0xcd, 0, 0, 0, 0, 0, 0];
    assert_eq!(fixed_random_bytes(&given), padded);
    assert_eq!(fixed_random_bytes(&vec![1, 2, 3, 4, 5, 6, 7, 8, 9]), vec![1, 2, 3, 4, 5, 6, 7, 8]);
    let expected = format!("tsk-{}", expected_digits("Test", "2025-02-10T00:00:00+00:00", &padded));
    let made = generate_issue_identifier(&request(&[]), Some(&given)).unwrap();
    assert_eq!(made.identifier, expected);
    let error = generate_issue_identifier(&request(&[expected.as_str()]), Some(&given)).unwrap_err();
    assert_eq!(error.to_string(), "unable to generate unique id after 10 attempts");
}

#[test]
fn taken_identifiers_are_recognised() {
    let existing = vec!["tsk-aaaaaa".to_string(), "tsk-bbbbbb".to_string()];
    assert!(is_taken(&existing, "tsk-bbbbbb"));
    assert!(!is_taken(&existing, "tsk-cccccc"));
    assert!(!is_taken(&Vec::new(), "tsk-aaaaaa"));
}

#[test]
fn hexadecimal_text_is_decoded_pair_by_pair() {
    assert_eq!(decode_hex("").unwrap(), Vec::<u8>::new());
    assert_eq!(decode_hex("00ff10Ab").unwrap(), vec![0x00, 0xff, 0x10, 0xab]);
    assert_eq!(decode_hex("+f").unwrap(), vec![0x0f]);
    assert_eq!(decode_hex("abc").unwrap_err().to_string(), "invalid TASKULUS_TEST_RANDOM_BYTES");
    assert!(decode_hex("zz").is_err());
    assert!(decode_hex("-1").is_err());
    assert!(decode_hex("1+").is_err());
    assert!(decode_hex("++").is_err());
    assert!(decode_hex("0g").is_err());
    // Two bytes, one character: the character has no partner and is passed over.
    assert_eq!(decode_hex("é").unwrap(), Vec::<u8>::new());
}
