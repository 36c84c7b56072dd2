use build_attest::canonical::canonical_bytes;
use build_attest::digest::compute_file_sha256;
use build_attest::hexcode::{from_hex, from_lower_hex, to_hex};
use build_attest::json::{write_json_member, write_json_text};
use build_attest::nonce::{generate_nonce, nonce_from};
use build_attest::payload::{BuildFacts, Payload};
use build_attest::text::{chars_of, same_text};
use serde::ser::SerializeStruct;
use serde::{Serialize, Serializer};

fn facts() -> BuildFacts {
    BuildFacts {
        commit: "abc123".to_string(),
        flake_lock_hash: "deadbeef".to_string(),
        build_command: "build all".to_string(),
        artifact_tar_hash: "cafebabe".to_string(),
        drv_hash: None,
        build_log_hash: None,
    }
}

fn payload(f: BuildFacts) -> Payload {
    Payload::new(f, "2024-01-02T03:04:05Z".to_string(), "00ff".to_string()).unwrap()
}

fn text_of(bytes: Vec<u8>) -> String {
    String::from_utf8(bytes).unwrap()
}

#[test]
fn canonical_bytes_of_required_fields_only() {
    let bytes = canonical_bytes(&payload(facts()));
    assert_eq!(
        text_of(bytes),
        "{\"commit\":\"abc123\",\"flake_lock_hash\":\"deadbeef\",\"build_command\":\"build all\",\
         \"artifact_tar_hash\":\"cafebabe\",\"timestamp\":\"2024-01-02T03:04:05Z\",\"nonce\":\"00ff\"}"
    );
}

#[test]
fn canonical_bytes_with_optional_fields() {
    let mut f = facts();
    f.drv_hash = Some("d1".to_string());
    f.build_log_hash = Some("b2".to_string());
    assert_eq!(
        text_of(canonical_bytes(&payload(f))),
        "{\"commit\":\"abc123\",\"flake_lock_hash\":\"deadbeef\",\"build_command\":\"build all\",\
         \"artifact_tar_hash\":\"cafebabe\",\"drv_hash\":\"d1\",\"build_log_hash\":\"b2\",\
         \"timestamp\":\"2024-01-02T03:04:05Z\",\"nonce\":\"00ff\"}"
    );
    let mut f = facts();
    f.build_log_hash = Some("b2".to_string());
    assert_eq!(
        text_of(canonical_bytes(&payload(f))),
        "{\"commit\":\"abc123\",\"flake_lock_hash\":\"deadbeef\",\"build_command\":\"build all\",\
         \"artifact_tar_hash\":\"cafebabe\",\"build_log_hash\":\"b2\",\
         \"timestamp\":\"2024-01-02T03:04:05Z\",\"nonce\":\"00ff\"}"
    );
}

#[test]
fn unset_optional_field_differs_from_empty_one() {
    let unset = canonical_bytes(&payload(facts()));
    let mut f = facts();
    f.drv_hash = Some(String::new());
    let empty = canonical_bytes(&payload(f));
    assert_ne!(unset, empty);
    assert!(text_of(empty).contains("\"drv_hash\":\"\""));
    assert!(!text_of(unset).contains("drv_hash"));
}

#[test]
fn equal_payloads_have_equal_bytes() {
    let a = payload(facts());
    let b = payload(facts());
    assert_eq!(canonical_bytes(&a), canonical_bytes(&b));
    assert_eq!(canonical_bytes(&a), canonical_bytes(&a.clone()));
}

#[test]
fn payloads_that_differ_in_nonce_have_different_bytes() {
    let a = Payload::new(facts(), "t".to_string(), "00".to_string()).unwrap();
    let b = Payload::new(facts(), "t".to_string(), "01".to_string()).unwrap();
    assert_ne!(canonical_bytes(&a), canonical_bytes(&b));
    // a nonce that mimics the end of the object and the start of another field
    let c = Payload::new(facts(), "t".to_string(), "\",\"x\":\"".to_string()).unwrap();
    let d = Payload::new(facts(), "t".to_string(), "\\\",\\\"x\\\":\\\"".to_string()).unwrap();
    assert_ne!(canonical_bytes(&c), canonical_bytes(&d));
}

#[test]
fn fields_cannot_be_shifted_into_one_another() {
    let mut f = facts();
    f.commit = "a\",\"flake_lock_hash\":\"b".to_string();
    let shifted = canonical_bytes(&payload(f));
    let mut g = facts();
    g.commit = "a".to_string();
    g.flake_lock_hash = "b".to_string();
    assert_ne!(shifted, canonical_bytes(&payload(g)));
}

#[test]
fn strings_are_escaped_as_json() {
    let mut out = Vec::new();
    write_json_text(&mut out, "a\"b\\c\u{8}\t\n\u{c}\r\u{0}\u{1f}\u{7f}/é\u{1f600}");
    assert_eq!(
        text_of(out),
        "\"a\\\"b\\\\c\\b\\t\\n\\f\\r\\u0000\\u001f\u{7f}/é\u{1f600}\""
    );
    let mut out = b"x".to_vec();
    write_json_text(&mut out, "");
    assert_eq!(out, b"x\"\"");
}

#[test]
fn escaped_strings_read_back_with_a_json_parser() {
    let text = "tab\there \"quoted\" back\\slash \u{1} é 日本";
    let mut out = Vec::new();
    write_json_text(&mut out, text);
    let read: String = serde_json::from_slice(&out).unwrap();
    assert_eq!(read, text);
    assert_eq!(out, serde_json::to_vec(text).unwrap());
}

#[test]
fn canonical_bytes_read_back_with_a_json_parser() {
    let mut f = facts();
    f.build_command = "sh -c \"echo hi\"\n".to_string();
    f.drv_hash = Some("d1".to_string());
    let bytes = canonical_bytes(&payload(f));
    let value: serde_json::Value = serde_json::from_slice(&bytes).unwrap();
    let object = value.as_object().unwrap();
    assert_eq!(object.len(), 7);
    assert_eq!(object["commit"], "abc123");
    assert_eq!(object["build_command"], "sh -c \"echo hi\"\n");
    assert_eq!(object["drv_hash"], "d1");
    assert_eq!(object["nonce"], "00ff");
    assert!(object.get("build_log_hash").is_none());
}

#[test]
fn members_are_separated_by_commas() {
    let mut out = Vec::new();
    write_json_member(&mut out, true, "k", "v");
    assert_eq!(out, b"\"k\":\"v\"");
    write_json_member(&mut out, false, "k2", "v2");
    assert_eq!(out, b"\"k\":\"v\",\"k2\":\"v2\"");
}

#[test]
fn hex_writes_two_lowercase_digits_per_byte() {
    assert_eq!(to_hex(&[]), "");
    assert_eq!(to_hex(&[0x00, 0x0f, 0x10, 0xab, 0xff]), "000f10abff");
    assert_eq!(to_hex(&[1, 2, 3, 15, 16]), "0102030f10");
}

#[test]
fn hex_reads_either_case_and_rejects_the_rest() {
    assert_eq!(from_hex(""), Some(vec![]));
    assert_eq!(from_hex("000f10abff"), Some(vec![0x00, 0x0f, 0x10, 0xab, 0xff]));
    assert_eq!(from_hex("000F10AbfF"), Some(vec![0x00, 0x0f, 0x10, 0xab, 0xff]));
    assert_eq!(from_hex("123"), None);
    assert_eq!(from_hex("0g"), None);
    assert_eq!(from_hex("0x10"), None);
    assert_eq!(from_hex(" 10"), None);
    assert_eq!(from_hex("é"), None);
    assert_eq!(from_hex("aé"), None);
    let all: Vec<u8> = (0u8..=255).collect();
    assert_eq!(from_hex(&to_hex(&all)), Some(all));
}

#[test]
fn lowercase_hex_alone_is_read_where_capitals_are_refused() {
    assert_eq!(from_lower_hex(""), Some(vec![]));
    assert_eq!(from_lower_hex("000f10abff"), Some(vec![0x00, 0x0f, 0x10, 0xab, 0xff]));
    assert_eq!(from_lower_hex("000F10abff"), None);
    assert_eq!(from_lower_hex("A0"), None);
    assert_eq!(from_lower_hex("0A"), None);
    assert_eq!(from_lower_hex("123"), None);
    assert_eq!(from_lower_hex("0g"), None);
    assert_eq!(from_lower_hex("é0"), None);
    assert_eq!(from_lower_hex(" 10"), None);
    let all: Vec<u8> = (0u8..=255).collect();
    assert_eq!(from_lower_hex(&to_hex(&all)), Some(all.clone()));
    assert_eq!(from_lower_hex(&to_hex(&all).to_uppercase()), None);
    assert_eq!(from_hex(&to_hex(&all).to_uppercase()), Some(all));
}

#[test]
fn sha256_of_known_inputs() {
    assert_eq!(
        compute_file_sha256(b""),
        "e3b0c44298fc1c149afbf4c8996fb92427ae41e4649b934ca495991b7852b855"
    );
    assert_eq!(
        compute_file_sha256(b"abc"),
        "ba7816bf8f01cfea414140de5dae2223b00361a396177a9cb410ff61f20015ad"
    );
    assert_eq!(compute_file_sha256(&[0u8; 1000]).len(), 64);
}

#[test]
fn nonce_is_the_hex_of_its_bytes() {
    assert_eq!(nonce_from(&[0u8; 16]), "00000000000000000000000000000000");
    let bytes: [u8; 16] = [0, 1, 2, 3, 4, 5, 6, 7, 8, 9, 10, 11, 12, 13, 14, 255];
    assert_eq!(nonce_from(&bytes), "000102030405060708090a0b0c0d0eff");
    let fresh = generate_nonce();
    assert_eq!(fresh.len(), 32);
    assert!(fresh.chars().all(|c| c.is_ascii_digit() || ('a'..='f').contains(&c)));
}

#[test]
fn texts_are_compared_by_their_characters() {
    assert!(same_text("", ""));
    assert!(same_text("abc", "abc"));
    assert!(!same_text("abc", "abd"));
    assert!(!same_text("abc", "ab"));
    assert!(!same_text("é", "e"));
    assert!(same_text("日本", "日本"));
    assert_eq!(chars_of("aé日"), vec!['a', 'é', '日']);
    assert_eq!(chars_of(""), Vec::<char>::new());
}

/// The payload as a serde struct with the same field names in the same
/// order, an unset optional field being skipped.
struct AsSerdeStruct<'a>(&'a Payload);

impl Serialize for AsSerdeStruct<'_> {
    fn serialize<S: Serializer>(&self, serializer: S) -> Result<S::Ok, S::Error> {
        let p = self.0;
        let optional = p.drv_hash().is_some() as usize + p.build_log_hash().is_some() as usize;
        let mut out = serializer.serialize_struct("Payload", 6 + optional)?;
        out.serialize_field("commit", p.commit())?;
        out.serialize_field("flake_lock_hash", p.flake_lock_hash())?;
        out.serialize_field("build_command", p.build_command())?;
        out.serialize_field("artifact_tar_hash", p.artifact_tar_hash())?;
        match p.drv_hash() {
            Some(hash) => out.serialize_field("drv_hash", &Some(hash))?,
            None => out.skip_field("drv_hash")?,
        }
        match p.build_log_hash() {
            Some(hash) => out.serialize_field("build_log_hash", &Some(hash))?,
            None => out.skip_field("build_log_hash")?,
        }
        out.serialize_field("timestamp", p.timestamp())?;
        out.serialize_field("nonce", p.nonce())?;
        out.end()
    }
}

#[test]
fn canonical_bytes_are_those_of_a_serde_struct() {
    let mut samples = vec![facts()];
    let mut f = facts();
    f.drv_hash = Some("d1".to_string());
    samples.push(f);
    let mut f = facts();
    f.build_log_hash = Some(String::new());
    samples.push(f);
    let mut f = facts();
    f.commit = "\u{0}\u{1f} \"\\/\u{7f}é\u{2028}\u{1f600}".to_string();
    f.build_command = "a\tb\nc\rd\u{8}e\u{c}f".to_string();
    f.drv_hash = Some("x".to_string());
    f.build_log_hash = Some("y".to_string());
    samples.push(f);
    for sample in samples {
        let p = payload(sample);
        assert_eq!(canonical_bytes(&p), serde_json::to_vec(&AsSerdeStruct(&p)).unwrap());
    }
}
