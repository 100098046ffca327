use can_fw_update::frames::dyn_id::Data;
use can_fw_update::frames::firmware::{UploadPart, UploadPartChangePos};
use can_fw_update::frames::serial::Serial;
use can_fw_update::frames::version::Version;

#[test]
fn dyn_id_test() {
    let s = Data::new(Serial([1, 2, 3, 4, 5]), 10);
    assert_eq!(s.serial, Serial([1, 2, 3, 4, 5]));
    assert_eq!(s.dyn_id, 10);

    let s = Data::new(Serial([1, 2, 3, 0, 5]), 0);
    assert_eq!(s.serial, Serial([1, 2, 3, 0, 5]));
    assert_eq!(s.dyn_id, 0);

    let bd = [1, 2, 3, 4, 5, 12];
    let s = Data::from_bytes(&bd);
    assert_eq!(s.serial, Serial([1, 2, 3, 4, 5]));
    assert_eq!(s.dyn_id, 12);

    let s = Data::new(Serial([1, 2, 3, 4, 5]), 10);
    assert_eq!(s.to_bytes(), [1, 2, 3, 4, 5, 10]);
}

#[test]
fn upload_part_change_pos() {
    assert_eq!(UploadPartChangePos::new(0).unwrap().pos(), 0);
    assert_eq!(
        UploadPartChangePos::new(125468usize).unwrap().pos(),
        125468usize
    );
    assert_eq!(UploadPartChangePos::new(0xFFFFFFusize + 1), None);

    let v = UploadPartChangePos::new(15000000).unwrap();
    let arr: [u8; 3] = v.to_bytes();
    assert_eq!(arr, [0xE4, 0xE1, 0xC0]);
    assert_eq!(
        UploadPartChangePos::from_bytes(&arr).pos(),
        15000000,
        "arr is {:#04x} {:#04x} {:#04x}",
        arr[0],
        arr[1],
        arr[2]
    );
}

#[test]
fn upload_part() {
    assert_eq!(UploadPart::new(0xFFFFFFusize + 1, [1, 2, 3, 4, 5]), None);

    let p = UploadPart::new(0xFFF1FFusize, [1, 2, 3, 4, 5]).unwrap();
    assert_eq!(p.data, [1, 2, 3, 4, 5]);
    assert_eq!(p.position(), 0xFFF1FFusize);

    let p = UploadPart::from_bytes(&[0x01, 0x02, 0x03, 1, 2, 3, 4, 5]);
    assert_eq!(p.data, [1, 2, 3, 4, 5]);
    assert_eq!(p.position(), 0x010203usize);

    assert_eq!(p.to_bytes(), [0x01, 0x02, 0x03, 1, 2, 3, 4, 5]);
}

#[test]
fn serial_test() {
    let s = Serial([1, 2, 3, 4, 5]);
    assert_eq!(s.0, [1, 2, 3, 4, 5]);

    let s = Serial([1, 2, 3, 4, 5]);
    assert_eq!(<[u8; 5]>::from(s.0), [1, 2, 3, 4, 5]);

    assert_eq!(String::from_utf8(s.to_hex()).unwrap().as_str(), "0102030405");

    assert_eq!(
        Serial::try_from_str("010203FFFE").unwrap().0,
        [1, 2, 3, 255, 254]
    );
}

#[test]
fn serial_rejects_bad_text() {
    assert_eq!(Serial::try_from_str("01020304"), Err(()));
    assert_eq!(Serial::try_from_str("0102030405ff"), Err(()));
    assert_eq!(Serial::try_from_str("010203040g"), Err(()));
}

#[test]
fn version_version() {
    let v = Version {
        major: 1,
        minor: 2,
        path: 3,
        build: 9864,
    };
    let arr: [u8; 8] = v.to_bytes();
    assert_eq!(Version::from_bytes(&arr), v)
}
