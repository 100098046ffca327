use can_fw_update::frame_id::{FrameId, SubId};

#[test]
fn frame_id() {
    assert_eq!(FrameId::try_from_u16(65535), None);

    assert_eq!(FrameId::try_from_u16(8000), Some(FrameId::Serial));

    assert_eq!(
        FrameId::extract_sub_id((4587u32 << 13) | 8000u32),
        SubId(4587)
    );

    assert_eq!(
        FrameId::try_from_u32_with_sub_id((4587u32 << 13) | 8000u32),
        Some((FrameId::Serial, SubId(4587)))
    );

    assert_eq!(
        FrameId::Serial.as_raw(SubId(4587)),
        (4587u32 << 13) | 8000u32
    );
}

#[test]
fn sub_id_splits_big_endian() {
    let id = SubId(0x1234);
    assert!(id.is_valid());
    assert_eq!(id.split(), [0x12, 0x34]);
    assert_eq!(SubId::from_be_pair([0x12, 0x34]), SubId(0x1234));
    assert!(!SubId(0).is_valid());
}

#[test]
fn every_code_round_trips() {
    let ids = [
        FrameId::Serial,
        FrameId::DynId,
        FrameId::HardwareVersion,
        FrameId::FirmwareVersion,
        FrameId::PendingFirmwareVersion,
        FrameId::FirmwareUploadPartChangePos,
        FrameId::FirmwareUploadPause,
        FrameId::FirmwareUploadPart,
        FrameId::FirmwareUploadFinished,
        FrameId::FirmwareStartUpdate,
    ];
    for id in ids {
        assert_eq!(FrameId::try_from_u16(id.code()), Some(id));
        for sub in [0u16, 1, 0x00FF, 0xFFFF] {
            let raw = id.as_raw(SubId(sub));
            assert_eq!(FrameId::extract_sub_id(raw), SubId(sub));
            assert_eq!(FrameId::try_from_u32_with_sub_id(raw), Some((id, SubId(sub))));
        }
    }
}
