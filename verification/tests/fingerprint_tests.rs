use cedar_agent::services::fingerprint::{
    calculate_hash_file, fingerprint, has_json_extension, to_hex_lower, FileState,
    FingerprintError,
};

const EMPTY_DIGEST: &str = "e3b0c44298fc1c149afbf4c8996fb92427ae41e4649b934ca495991b7852b855";
const ABC_DIGEST: &str = "ba7816bf8f01cfea414140de5dae2223b00361a396177a9cb410ff61f20015ad";

#[test]
fn fingerprint_is_the_sha256_digest_in_hex() {
    assert_eq!(fingerprint(b""), EMPTY_DIGEST);
    assert_eq!(fingerprint(b"abc"), ABC_DIGEST);
    assert_ne!(fingerprint(b"abc"), fingerprint(b"abd"));
    assert_eq!(fingerprint(b"[]").len(), 64);
}

#[test]
fn hex_has_two_lower_case_digits_per_byte() {
    assert_eq!(to_hex_lower(&[]), "");
    assert_eq!(to_hex_lower(&[0x00]), "00");
    assert_eq!(to_hex_lower(&[0x00, 0xff, 0x1a, 0xa1, 0x09, 0x90]), "00ff1aa10990");
    assert_eq!(to_hex_lower(&[0x01, 0x23, 0x45, 0x67, 0x89, 0xab, 0xcd, 0xef]), "0123456789abcdef");
}

#[test]
fn json_extension_is_a_suffix_of_five_characters() {
    assert!(has_json_extension("policies.json"));
    assert!(has_json_extension("/etc/agent/data.json"));
    assert!(has_json_extension(".json"));
    assert!(has_json_extension("\u{e4}\u{f6}.json"));
    assert!(!has_json_extension(""));
    assert!(!has_json_extension("json"));
    assert!(!has_json_extension("a.JSON"));
    assert!(!has_json_extension("a.json "));
    assert!(!has_json_extension("a.jsonx"));
    assert!(!has_json_extension("a.jso"));
    assert!(!has_json_extension("a,json"));
    assert!(!has_json_extension("data.yaml"));
}

#[test]
fn hash_of_a_readable_json_file() {
    let file = FileState::Content(b"abc".to_vec());
    assert_eq!(calculate_hash_file("a.json", &file), Ok(ABC_DIGEST.to_string()));
    assert_eq!(
        calculate_hash_file("b.json", &FileState::Content(Vec::new())),
        Ok(EMPTY_DIGEST.to_string())
    );
}

#[test]
fn hash_of_an_empty_path_fails_first() {
    for file in [
        FileState::Missing,
        FileState::Unreadable("denied".to_string()),
        FileState::Content(b"abc".to_vec()),
    ] {
        assert_eq!(calculate_hash_file("", &file), Err(FingerprintError::EmptyPath));
    }
}

#[test]
fn hash_of_a_missing_file_is_not_found() {
    assert_eq!(
        calculate_hash_file("a.json", &FileState::Missing),
        Err(FingerprintError::NotFound("a.json".to_string()))
    );
    assert_eq!(
        calculate_hash_file("a.txt", &FileState::Missing),
        Err(FingerprintError::NotFound("a.txt".to_string()))
    );
}

#[test]
fn hash_of_a_file_that_is_no_json_file_fails() {
    assert_eq!(
        calculate_hash_file("a.txt", &FileState::Content(b"abc".to_vec())),
        Err(FingerprintError::InvalidExtension("a.txt".to_string()))
    );
    assert_eq!(
        calculate_hash_file("a.txt", &FileState::Unreadable("denied".to_string())),
        Err(FingerprintError::InvalidExtension("a.txt".to_string()))
    );
}

#[test]
fn hash_of_an_unreadable_file_gives_the_reason() {
    assert_eq!(
        calculate_hash_file("a.json", &FileState::Unreadable("denied".to_string())),
        Err(FingerprintError::Unreadable("denied".to_string()))
    );
}

#[test]
fn fingerprint_errors_are_described() {
    assert_eq!(FingerprintError::EmptyPath.describe(), "empty path");
    assert_eq!(
        FingerprintError::NotFound("a.json".to_string()).describe(),
        "File not found: a.json"
    );
    assert_eq!(
        FingerprintError::InvalidExtension("a.txt".to_string()).describe(),
        "Invalid file extension: a.txt"
    );
    assert_eq!(
        FingerprintError::Unreadable("denied".to_string()).describe(),
        "Failed to read file: denied"
    );
}
