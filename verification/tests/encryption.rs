use snapshot::encryption::{
    parse_str, sector_count, sector_index, sector_iv, to_string, EncryptionAlgorithm,
    EncryptionDescription, SECTOR_SIZE,
};

#[test]
fn test_encryption_parameter_str() {
    // odd length string
    assert!(parse_str("01234567890123456").is_err());

    // invalid hex
    assert!(parse_str("x123456789012345").is_err());

    let bytes = parse_str("0123456789012345").unwrap();
    assert_eq!(bytes, [0x01, 0x23, 0x45, 0x67, 0x89, 0x01, 0x23, 0x45]);
}

#[test]
fn key_text_in_both_cases_and_with_sign() {
    assert_eq!(parse_str("aAfF").unwrap(), [0xaa, 0xff]);
    assert_eq!(parse_str("+f+0").unwrap(), [0x0f, 0x00]);
    assert_eq!(parse_str("").unwrap(), Vec::<u8>::new());
    assert_eq!(parse_str("-1"), Err("-1"));
    assert_eq!(parse_str("1+"), Err("1+"));
    assert_eq!(parse_str("é"), Err("é"));
}

#[test]
fn key_is_written_in_lower_case() {
    assert_eq!(to_string(&vec![0x01, 0x23, 0xab, 0xff, 0x00]), "0123abff00");
    assert_eq!(to_string(&Vec::new()), "");
}

#[test]
fn key_text_is_read_back() {
    let key: Vec<u8> = (0..=255).collect();
    assert_eq!(parse_str(&to_string(&key)).unwrap(), key);
}

#[test]
fn sectors_are_counted_whole() {
    assert_eq!(sector_count(0), 0);
    assert_eq!(sector_count(511), 0);
    assert_eq!(sector_count(512), 1);
    assert_eq!(sector_count(1025), 2);
    assert_eq!(SECTOR_SIZE, 512);
}

#[test]
fn sector_iv_is_the_index_in_sixteen_bytes() {
    assert_eq!(sector_iv(0), vec![0u8; 16]);
    assert_eq!(sector_iv(0x0102), (0x0102u128).to_le_bytes().to_vec());
    assert_eq!(sector_iv(u64::MAX), (u64::MAX as u128).to_le_bytes().to_vec());
    assert_eq!(sector_index(5, 7), Some(12));
    assert_eq!(sector_index(u64::MAX, 1), None);
}

#[test]
fn encryption_description_holds_key_and_algorithm() {
    let description = EncryptionDescription {
        key: parse_str("0123456789012345678901234567890A").unwrap(),
        algorithm: EncryptionAlgorithm::AES256XTS,
    };
    assert_eq!(description.key.len(), 16);
    assert_eq!(to_string(&description.key), "0123456789012345678901234567890a");
    assert_eq!(description.clone().algorithm, EncryptionAlgorithm::AES256XTS);
}
