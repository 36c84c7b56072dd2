use build_attest::hexcode::to_hex;
use build_attest::nonce::generate_nonce;
use build_attest::timestamp::get_timestamp;

#[test]
fn test_nonce_generation() {
    let nonce1 = generate_nonce();
    let nonce2 = generate_nonce();
    assert_eq!(nonce1.len(), 32); // 16 bytes = 32 hex chars
    assert_ne!(nonce1, nonce2); // Should be different
}

#[test]
fn test_timestamp_format() {
    let ts = get_timestamp();
    assert!(ts.contains('T'));
    assert!(ts.ends_with('Z'));
    assert!(ts.len() >= 20);
}

#[test]
fn test_hash_length() {
    // Just a simple test to verify hex encoding produces correct length
    let test_bytes = [0u8; 32];
    let hex_str = to_hex(&test_bytes);
    assert_eq!(hex_str.len(), 64); // 32 bytes = 64 hex chars
}
