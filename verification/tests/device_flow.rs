use can_fw_update::device::{
    crc8, finish_step, handle_frame, pending_version_step, take_ready_page, unpause_step,
    DeviceState, DispatchAction,
};
use can_fw_update::frame_id::SubId;
use can_fw_update::frames::serial::Serial;
use can_fw_update::frames::version::Version;
use can_fw_update::frames::{Frame, Type};
use can_fw_update::tx_queue::{enqueue_frame, PriorityFrame, TxQueue};
use can_fw_update::uploader::{UploadStep, Uploader};

fn own_serial() -> Serial {
    Serial([1, 2, 3, 4, 5])
}

#[test]
fn crc8_known_answer() {
    // The CRC-8 check value: polynomial 0x07, init 0, no reflection, no
    // final xor over "123456789".
    assert_eq!(crc8(b"123456789", 0), 0xF4);
    // Folding in two calls equals one pass.
    let mid = crc8(b"12345", 0);
    assert_eq!(crc8(b"6789", mid), 0xF4);
}

#[test]
fn serial_request_queues_own_serial() {
    let mut state = DeviceState::new();
    let mut queue = TxQueue::new();
    let r = handle_frame(
        &own_serial(),
        &mut state,
        &mut queue,
        &Frame::Serial(Type::Remote),
    );
    assert_eq!(r, DispatchAction::Nothing);
    assert_eq!(
        queue.pop_frame(),
        Some(Frame::Serial(Type::Data(own_serial())))
    );
    assert_eq!(queue.pop_frame(), None);
}

#[test]
fn dyn_id_assignment_adopts_sub_id() {
    let mut state = DeviceState::new();
    let mut queue = TxQueue::new();
    assert!(!state.sub_id.is_valid());

    let assignment = Frame::DynId(can_fw_update::frames::dyn_id::Data::new(own_serial(), 10));
    handle_frame(&own_serial(), &mut state, &mut queue, &assignment);

    let [high, low] = state.sub_id.split();
    assert_eq!(low, 10);
    assert_eq!(high, crc8(&[10], crc8(&[1, 2, 3, 4, 5], 0)));
    assert!(state.sub_id.is_valid());

    // An assignment for another device is ignored.
    let other = Frame::DynId(can_fw_update::frames::dyn_id::Data::new(
        Serial([9, 9, 9, 9, 9]),
        77,
    ));
    let before = state.sub_id;
    handle_frame(&own_serial(), &mut state, &mut queue, &other);
    assert_eq!(state.sub_id, before);
}

#[test]
fn pending_version_request_raises_flag() {
    let mut state = DeviceState::new();
    let mut queue = TxQueue::new();
    assert!(!state.pending_fw_version_required);
    handle_frame(
        &own_serial(),
        &mut state,
        &mut queue,
        &Frame::PendingFirmwareVersion(Type::Remote),
    );
    assert!(state.pending_fw_version_required);
}

#[test]
fn start_update_requires_valid_pending_image() {
    let mut state = DeviceState::new();
    let mut queue = TxQueue::new();
    let r = handle_frame(
        &own_serial(),
        &mut state,
        &mut queue,
        &Frame::FirmwareStartUpdate,
    );
    assert_eq!(r, DispatchAction::NoPendingFirmware);

    let version = Version {
        major: 1,
        minor: 0,
        path: 0,
        build: 1,
    };
    let reply = pending_version_step(&mut state.fw_upload, Some(version));
    assert_eq!(reply, Frame::PendingFirmwareVersion(Type::Data(Some(version))));
    assert!(state.fw_upload.has_pending_fw);

    let r = handle_frame(
        &own_serial(),
        &mut state,
        &mut queue,
        &Frame::FirmwareStartUpdate,
    );
    assert_eq!(r, DispatchAction::Reboot);
}

#[test]
fn queue_drains_highest_code_first() {
    let mut queue = TxQueue::new();
    assert!(enqueue_frame(&mut queue, PriorityFrame(Frame::Serial(Type::Remote))));
    assert!(enqueue_frame(&mut queue, PriorityFrame(Frame::FirmwareStartUpdate)));
    assert!(enqueue_frame(
        &mut queue,
        PriorityFrame(Frame::FirmwareUploadPause(true))
    ));

    assert_eq!(queue.peek_frame(), Some(Frame::FirmwareStartUpdate));
    assert_eq!(queue.pop_frame(), Some(Frame::FirmwareStartUpdate));
    assert_eq!(queue.pop_frame(), Some(Frame::FirmwareUploadPause(true)));
    assert_eq!(queue.pop_frame(), Some(Frame::Serial(Type::Remote)));
    assert_eq!(queue.pop_frame(), None);
}

#[test]
fn full_queue_drops_new_frames() {
    let mut queue = TxQueue::new();
    for _ in 0..16 {
        assert!(enqueue_frame(&mut queue, PriorityFrame(Frame::Serial(Type::Remote))));
    }
    assert!(!enqueue_frame(
        &mut queue,
        PriorityFrame(Frame::FirmwareStartUpdate)
    ));
    assert_eq!(queue.len(), 16);
}

#[test]
fn uploader_follows_flow_control() {
    let mut up = Uploader::new();
    let target = SubId(0x0A0A);
    let image = [1u8, 2, 3, 4, 5, 6];

    match up.next_step(&image) {
        UploadStep::Send(p) => {
            assert_eq!(p.position(), 0);
            assert_eq!(p.data, [1, 2, 3, 4, 5]);
        },
        _ => panic!("expected a part to send"),
    }

    up.on_frame(&Frame::FirmwareUploadPause(true), target, target);
    assert!(up.is_paused());
    assert!(matches!(up.next_step(&image), UploadStep::Wait));

    // Frames from other devices are ignored.
    up.on_frame(&Frame::FirmwareUploadPause(false), SubId(1), target);
    assert!(up.is_paused());

    up.on_frame(&Frame::FirmwareUploadPause(false), target, target);
    assert!(!up.is_paused());

    up.advance();
    match up.next_step(&image) {
        UploadStep::Send(p) => {
            assert_eq!(p.position(), 1);
            // The final short part is zero-padded.
            assert_eq!(p.data, [6, 0, 0, 0, 0]);
        },
        _ => panic!("expected the padded final part"),
    }

    up.advance();
    assert!(matches!(up.next_step(&image), UploadStep::Done));

    let resume = can_fw_update::frames::firmware::UploadPartChangePos::new(1).unwrap();
    up.on_frame(
        &Frame::FirmwareUploadPartChangePos(resume),
        target,
        target,
    );
    assert_eq!(up.cursor(), 1);

    assert_eq!(up.pacing_ms(), 10);
    up.on_frame(
        &Frame::FirmwareUploadPartChangePos(
            can_fw_update::frames::firmware::UploadPartChangePos::new(2).unwrap(),
        ),
        target,
        target,
    );
    assert_eq!(up.pacing_ms(), 50);
}

#[test]
fn upload_flow_delivers_image_in_order() {
    let own = own_serial();
    let mut state = DeviceState::new();
    let mut queue = TxQueue::new();
    let mut up = Uploader::new();
    let sub = SubId(0x2A0A);

    let image: Vec<u8> = (0..2600u32).map(|i| (i % 251) as u8).collect();
    let mut flash: Vec<u8> = Vec::new();

    let mut guard = 0usize;
    loop {
        guard += 1;
        assert!(guard < 100_000, "the upload should terminate");
        match up.next_step(&image) {
            UploadStep::Done => break,
            UploadStep::Wait => {
                while let Some((page, index)) = take_ready_page(&mut state.fw_upload) {
                    assert_eq!(flash.len(), index * 1024);
                    flash.extend_from_slice(&page);
                }
                if let Some(echo) = unpause_step(&mut state.fw_upload) {
                    up.on_frame(&echo, sub, sub);
                }
            },
            UploadStep::Send(p) => {
                let r = handle_frame(&own, &mut state, &mut queue, &Frame::FirmwareUploadPart(p));
                assert_eq!(r, DispatchAction::Nothing);
                up.advance();
                while let Some(reply) = queue.pop_frame() {
                    up.on_frame(&reply, sub, sub);
                }
            },
        }
    }

    handle_frame(&own, &mut state, &mut queue, &Frame::FirmwareUploadFinished);
    assert!(state.fw_upload.paused && state.fw_upload.finished);
    while let Some((page, index)) = take_ready_page(&mut state.fw_upload) {
        assert_eq!(flash.len(), index * 1024);
        flash.extend_from_slice(&page);
    }
    assert!(finish_step(&mut state.fw_upload));

    assert!(flash.len() >= image.len());
    assert_eq!(&flash[..image.len()], &image[..]);
    assert!(flash[image.len()..].iter().all(|b| *b == 0));
}
