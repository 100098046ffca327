use can_fw_update::frames::version::Version;
use can_fw_update::pending_fw::{get, make_record};

fn sample_version() -> Version {
    Version {
        major: 1,
        minor: 2,
        path: 3,
        build: 4,
    }
}

#[test]
fn validator_accepts_documented_record() {
    // The staging layout, assembled by hand: BE32 length, version, payload,
    // BE32 CRC-32C over everything before it.
    let mut staging: Vec<u8> = Vec::new();
    staging.extend_from_slice(&16u32.to_be_bytes());
    staging.extend_from_slice(&[1, 2, 0, 3, 0, 0, 0, 4]);
    staging.extend_from_slice(&[0xAA; 8]);
    let crc = crc32c_hw::compute(&staging);
    staging.extend_from_slice(&crc.to_be_bytes());

    let got = get(&staging).expect("intact record should validate");
    assert_eq!(got.0, sample_version());
    assert_eq!(got.1, vec![0xAA; 8]);
}

#[test]
fn validator_rejects_any_corrupted_byte() {
    let mut staging: Vec<u8> = Vec::new();
    staging.extend_from_slice(&16u32.to_be_bytes());
    staging.extend_from_slice(&[1, 2, 0, 3, 0, 0, 0, 4]);
    staging.extend_from_slice(&[0xAA; 8]);
    let crc = crc32c_hw::compute(&staging);
    staging.extend_from_slice(&crc.to_be_bytes());

    for i in 0..20 {
        let mut corrupted = staging.clone();
        corrupted[i] ^= 0x40;
        assert_eq!(get(&corrupted), None, "flipped byte {}", i);
    }
}

#[test]
fn record_round_trips_through_validator() {
    let payload: Vec<u8> = (0..200u32).map(|i| (i * 7) as u8).collect();
    let record = make_record(&sample_version(), &payload);
    let got = get(&record).expect("a freshly framed record validates");
    assert_eq!(got.0, sample_version());
    assert_eq!(got.1, payload);
}

#[test]
fn record_matches_external_crc() {
    // The builder and an independent CRC-32C implementation must agree on
    // the trailing checksum.
    let payload = [5u8, 6, 7, 8];
    let record = make_record(&sample_version(), &payload);
    let body_len = record.len() - 4;
    let expected = crc32c_hw::compute(&record[..body_len]);
    assert_eq!(record[body_len..].to_vec(), expected.to_be_bytes().to_vec());
}

#[test]
fn uninitialised_flash_reads_as_no_image() {
    let blank = vec![0xFFu8; 64];
    assert_eq!(get(&blank), None);
    assert_eq!(get(&[]), None);
    assert_eq!(get(&[0, 0, 0]), None);
}
