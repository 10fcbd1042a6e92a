use dpia::checksum::{check_word, sum_check, ChecksumMismatch};

/// The Sensirion CRC-8 of `data`, as the library computes it: the checksum it
/// reports for a mismatch (a sum of 0 is only accepted when the CRC is 0).
fn crc8_sensirion(data: &[u8]) -> u8 {
    match sum_check(data, 0, "probe") {
        None => 0,
        Some(m) => m.ours,
    }
}

/// The CRC-8 parameters Sensirion documents for the STS4x and SHT4x.
const CRC_8_SENSIRON: crc::Algorithm<u8> = crc::Algorithm {
    width: 8,
    poly: 0x31,
    init: 0xFF,
    refin: false,
    refout: false,
    xorout: 0x00,
    check: 0x00,
    residue: 0x00,
};

#[test]
fn lib_crc() {
    let sum = crc8_sensirion(&[0xBE, 0xEF]);

    assert_eq!(sum, 0x92);
}

#[test]
fn main_crc() {
    let sum = crc8_sensirion(&[0xBE, 0xEF]);

    assert_eq!(sum, 0x92);
}

#[test]
fn crc8_check_value() {
    assert_eq!(crc8_sensirion(b"123456789"), 0xF7);
    assert_eq!(crc8_sensirion(&[]), 0xFF);
}

#[test]
fn crc8_matches_sensirion_parameters() {
    let crc = crc::Crc::<u8>::new(&CRC_8_SENSIRON);
    let inputs: [&[u8]; 6] = [&[], &[0x00], &[0xFF, 0xFF], &[0xBE, 0xEF], &[0x01, 0x02, 0x03], b"hello sensor"];
    for data in inputs {
        assert_eq!(crc8_sensirion(data), crc.checksum(data));
    }
}

#[test]
fn sum_check_accepts_matching_sum() {
    assert_eq!(sum_check(&[0xBE, 0xEF], 0x92, "temperature"), None);
}

#[test]
fn sum_check_reports_mismatch() {
    assert_eq!(
        sum_check(&[0xBE, 0xEF], 0x00, "temperature"),
        Some(ChecksumMismatch { item: "temperature", ours: 0x92, theirs: 0x00 })
    );
}

#[test]
fn check_word_appends_only_mismatches() {
    let frame = [0xBE, 0xEF, 0x92, 0xBE, 0xEF, 0x93];
    let mut report = Vec::new();
    check_word(&mut report, &frame, 0, "first");
    assert!(report.is_empty());
    check_word(&mut report, &frame, 3, "second");
    assert_eq!(report, vec![ChecksumMismatch { item: "second", ours: 0x92, theirs: 0x93 }]);
}
