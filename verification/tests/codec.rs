use can_fw_update::frame_id::{FrameId, SubId};
use can_fw_update::frames::Type::{Data, Remote};
use can_fw_update::frames::{dyn_id, firmware, parse_raw, serial, version, Frame, ParseError, ParserType, RawType};

#[test]
fn serial() {
    assert_eq!(
        Frame::parse_frame(FrameId::Serial, ParserType::Remote(5),),
        Ok(Frame::Serial(Remote))
    );

    assert_eq!(
        Frame::Serial(Remote).raw_frame(),
        (FrameId::Serial, RawType::Remote(5))
    );

    assert_eq!(
        Frame::parse_frame(FrameId::Serial, ParserType::Data(&[1, 2, 3, 4, 5])),
        Ok(Frame::Serial(Data(serial::Serial([1, 2, 3, 4, 5]))))
    );

    assert_eq!(
        Frame::Serial(Data(serial::Serial([1, 2, 3, 4, 5]))).raw_frame(),
        (FrameId::Serial, RawType::new_data(&[1, 2, 3, 4, 5]))
    );
}

#[test]
fn dyn_id() {
    assert_eq!(
        Frame::parse_frame(FrameId::DynId, ParserType::Remote(0),),
        Err(ParseError::RemoteFrame)
    );

    assert_eq!(
        Frame::parse_frame(FrameId::DynId, ParserType::Data(&[1, 2, 3, 4, 5, 80]),),
        Ok(Frame::DynId(dyn_id::Data::new(
            serial::Serial([1, 2, 3, 4, 5]),
            80
        )))
    );

    assert_eq!(
        Frame::DynId(dyn_id::Data::new(serial::Serial([1, 2, 3, 4, 5]), 55)).raw_frame(),
        (FrameId::DynId, RawType::new_data(&[1, 2, 3, 4, 5, 55]))
    );
}

#[test]
fn mod_version() {
    fn none(id: FrameId, res: Frame) {
        assert_eq!(Frame::parse_frame(id, ParserType::Remote(8)), Ok(res));
        assert_eq!(res.raw_frame(), (id, RawType::Remote(8)));
    }
    none(FrameId::FirmwareVersion, Frame::FirmwareVersion(Remote));
    none(FrameId::HardwareVersion, Frame::HardwareVersion(Remote));
    none(
        FrameId::PendingFirmwareVersion,
        Frame::PendingFirmwareVersion(Remote),
    );

    fn data(v: version::Version, id: FrameId, res: Frame) {
        assert_eq!(
            Frame::parse_frame(id, ParserType::Data(&v.to_bytes())),
            Ok(res)
        );

        assert_eq!(res.raw_frame(), (id, RawType::new_data(&v.to_bytes())));
    }
    let v = version::Version {
        major: 1,
        minor: 2,
        path: 3,
        build: 9864,
    };
    data(v, FrameId::FirmwareVersion, Frame::FirmwareVersion(Data(v)));
    data(v, FrameId::HardwareVersion, Frame::HardwareVersion(Data(v)));
    data(
        v,
        FrameId::PendingFirmwareVersion,
        Frame::PendingFirmwareVersion(Data(Some(v))),
    );

    assert_eq!(
        Frame::parse_frame(
            FrameId::PendingFirmwareVersion,
            ParserType::Data(&[0_u8; 0])
        ),
        Ok(Frame::PendingFirmwareVersion(Data(None)))
    );

    assert_eq!(
        Frame::PendingFirmwareVersion(Data(Some(v))).raw_frame(),
        (
            FrameId::PendingFirmwareVersion,
            RawType::new_data(&v.to_bytes())
        )
    );
}

#[test]
fn firmware_upload_part_change_pos() {
    assert_eq!(
        Frame::parse_frame(FrameId::DynId, ParserType::Data(&[1, 2, 3, 4]),),
        Err(ParseError::WrongDataSize)
    );

    assert_eq!(
        Frame::parse_frame(
            FrameId::FirmwareUploadPartChangePos,
            ParserType::Data(&[0x01, 0x02, 0x03]),
        ),
        Ok(Frame::FirmwareUploadPartChangePos(
            firmware::UploadPartChangePos::new(0x010203usize).unwrap()
        ))
    );

    assert_eq!(
        Frame::FirmwareUploadPartChangePos(
            firmware::UploadPartChangePos::new(0x010203usize).unwrap()
        )
        .raw_frame(),
        (
            FrameId::FirmwareUploadPartChangePos,
            RawType::new_data(&[0x01, 0x02, 0x03])
        )
    );
}

#[test]
fn firmware_upload_part() {
    assert_eq!(
        Frame::parse_frame(
            FrameId::FirmwareUploadPart,
            ParserType::Data(&[0x01, 0x02, 0x03, 1, 2, 3, 4])
        ),
        Err(ParseError::WrongDataSize)
    );

    assert_eq!(
        Frame::parse_frame(FrameId::FirmwareUploadPart, ParserType::Remote(1)),
        Err(ParseError::RemoteFrame)
    );

    assert_eq!(
        Frame::parse_frame(
            FrameId::FirmwareUploadPart,
            ParserType::Data(&[0x01, 0x02, 0x03, 1, 2, 3, 4, 5])
        ),
        Ok(Frame::FirmwareUploadPart(
            firmware::UploadPart::new(0x010203usize, [1, 2, 3, 4, 5]).unwrap()
        ))
    );

    assert_eq!(
        Frame::FirmwareUploadPart(
            firmware::UploadPart::new(0x010203usize, [1, 2, 3, 4, 5]).unwrap()
        )
        .raw_frame(),
        (
            FrameId::FirmwareUploadPart,
            RawType::new_data(&[0x01, 0x02, 0x03, 1, 2, 3, 4, 5])
        )
    );
}

#[test]
fn firmware_start_update() {
    assert_eq!(
        Frame::parse_frame(FrameId::FirmwareStartUpdate, ParserType::Remote(1)),
        Err(ParseError::RemoteFrame)
    );

    assert_eq!(
        Frame::parse_frame(FrameId::FirmwareStartUpdate, ParserType::Data(&[])),
        Ok(Frame::FirmwareStartUpdate)
    );

    assert_eq!(
        Frame::FirmwareStartUpdate.raw_frame(),
        (FrameId::FirmwareStartUpdate, RawType::new_data(&[]))
    );
}

#[test]
fn firmware_upload_pause() {
    assert_eq!(
        Frame::parse_frame(FrameId::FirmwareUploadPause, ParserType::Remote(1)),
        Err(ParseError::RemoteFrame)
    );

    assert_eq!(
        Frame::parse_frame(FrameId::FirmwareUploadPause, ParserType::Data(&[1])),
        Ok(Frame::FirmwareUploadPause(true))
    );

    assert_eq!(
        Frame::parse_frame(FrameId::FirmwareUploadPause, ParserType::Data(&[0])),
        Ok(Frame::FirmwareUploadPause(false))
    );

    assert_eq!(
        Frame::FirmwareUploadPause(false).raw_frame(),
        (FrameId::FirmwareUploadPause, RawType::new_data(&[0]))
    );

    assert_eq!(
        Frame::FirmwareUploadPause(true).raw_frame(),
        (FrameId::FirmwareUploadPause, RawType::new_data(&[1]))
    );
}

#[test]
fn wrong_dlc_on_version_payloads() {
    assert_eq!(
        Frame::parse_frame(FrameId::FirmwareVersion, ParserType::Data(&[1, 2, 3])),
        Err(ParseError::WrongDlc)
    );
    assert_eq!(
        Frame::parse_frame(FrameId::HardwareVersion, ParserType::Remote(5)),
        Err(ParseError::WrongDlc)
    );
    assert_eq!(
        Frame::parse_frame(FrameId::Serial, ParserType::Remote(3)),
        Err(ParseError::WrongDlc)
    );
}

#[test]
fn raw_ids_with_unknown_codes_are_rejected() {
    assert_eq!(
        parse_raw(8002, ParserType::Data(&[])),
        Err(ParseError::UnknownId)
    );
    let raw = FrameId::Serial.as_raw(SubId(77));
    assert_eq!(
        parse_raw(raw, ParserType::Remote(5)),
        Ok((Frame::Serial(Remote), SubId(77)))
    );
}
