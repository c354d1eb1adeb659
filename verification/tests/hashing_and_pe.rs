use revelation::hashing::sha256_hex;
use revelation::pe::{extract_imports, imports_from_bytes};

#[test]
fn sha256_hex_known_vectors() {
    assert_eq!(
        sha256_hex(b"abc"),
        "ba7816bf8f01cfea414140de5dae2223b00361a396177a9cb410ff61f20015ad"
    );
    assert_eq!(
        sha256_hex(b""),
        "e3b0c44298fc1c149afbf4c8996fb92427ae41e4649b934ca495991b7852b855"
    );
}

#[test]
fn sha256_hex_is_64_lowercase_hex_digits() {
    let h = sha256_hex(b"MZEVIL");
    assert_eq!(h.len(), 64);
    assert!(h.chars().all(|c| c.is_ascii_hexdigit() && !c.is_ascii_uppercase()));
    assert_ne!(sha256_hex(b"a"), sha256_hex(b"b"));
}

#[test]
fn non_executable_bytes_are_rejected() {
    assert!(extract_imports(b"MZEVIL").is_err());
    assert!(extract_imports(b"").is_err());
    assert!(imports_from_bytes(&[0u8; 128]).is_err());
    let mut almost = Vec::new();
    almost.extend_from_slice(b"MZ");
    almost.resize(64, 0);
    assert!(imports_from_bytes(&almost).is_err());
}
